//! A single-line text field, and signed steps over list positions.
use vstd::prelude::*;
use crate::text::append_str;

verus! {

/// A focusable single-line text field; typing appends at the end.
#[derive(Debug)]
pub struct TextInput {
    pub text: String,
    pub focused: bool,
}

impl TextInput {
    pub fn new() -> (r: Self)
        ensures
            r.text@.len() == 0,
            !r.focused,
    {
        TextInput { text: String::new(), focused: false }
    }

    pub fn clear(&mut self)
        ensures
            final(self).text@.len() == 0,
            final(self).focused == old(self).focused,
    {
        self.text = String::new();
    }

    pub fn focus(&mut self)
        ensures
            final(self).focused,
            final(self).text@ == old(self).text@,
    {
        self.focused = true;
    }

    pub fn set(&mut self, value: String)
        ensures
            final(self).text@ == value@,
            final(self).focused == old(self).focused,
    {
        self.text = value;
    }

    pub fn insert(&mut self, value: &str)
        ensures
            final(self).text@ == old(self).text@ + value@,
            final(self).focused == old(self).focused,
    {
        append_str(&mut self.text, value);
    }

    pub fn is_empty(&self) -> (r: bool)
        ensures
            r == (self.text@.len() == 0),
    {
        self.text.as_str().is_empty()
    }

    pub fn text(&self) -> (r: &str)
        ensures
            r@ == self.text@,
    {
        self.text.as_str()
    }
}

/// `x + delta`, held within `0..=usize::MAX` (`usize::saturating_add_signed`).
pub open spec fn spec_add_signed(x: usize, delta: isize) -> usize {
    let v = x + delta;
    if v < 0 {
        0
    } else if v > usize::MAX {
        usize::MAX
    } else {
        v as usize
    }
}

pub fn add_signed(x: usize, delta: isize) -> (r: usize)
    ensures
        r == spec_add_signed(x, delta),
{
    if delta >= 0 {
        x.saturating_add(delta as usize)
    } else {
        let magnitude: usize = ((-(delta + 1)) as usize) + 1;
        x.saturating_sub(magnitude)
    }
}

} // verus!
