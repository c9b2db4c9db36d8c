//! The order form of the live-coding page: a price field and a send button.

use vstd::prelude::*;

verus! {

/// The text typed into the price field.
pub struct Model {
    pub price_text: String,
}

/// The events of the form.
pub enum Msg {
    UpdatePriceText(String),
    SendOrder,
}

impl Model {
    /// A form with an empty price field.
    pub fn new() -> (r: Model)
        ensures
            r.price_text@ == Seq::<char>::empty(),
    {
        Model { price_text: String::new() }
    }

    /// Handles an event and says whether the form must be drawn again: typed
    /// text replaces the price without a redraw; sending redraws.
    pub fn update(&mut self, msg: Msg) -> (r: bool)
        ensures
            match msg {
                Msg::UpdatePriceText(text) => final(self).price_text == text && !r,
                Msg::SendOrder => *final(self) == *old(self) && r,
            },
    {
        match msg {
            Msg::UpdatePriceText(text) => {
                self.price_text = text;
                false
            },
            Msg::SendOrder => true,
        }
    }
}

} // verus!
