//! The settings screen's data: which section is open in which window.

use vstd::prelude::*;

verus! {

/// One section of the settings screen.
#[derive(Debug, Clone, Copy, PartialEq, Eq, Structural)]
pub enum Section {
    Buffer,
    ScaleFactor,
}

impl Section {
    /// Every section, in the order the sidebar lists them.
    pub fn list() -> (r: Vec<Section>)
        ensures
            r@ == seq![Section::Buffer, Section::ScaleFactor],
    {
        let mut r: Vec<Section> = Vec::new();
        r.push(Section::Buffer);
        r.push(Section::ScaleFactor);
        proof {
            assert(r@ =~= seq![Section::Buffer, Section::ScaleFactor]);
        }
        r
    }

    /// The section's display name.
    pub fn name(&self) -> (r: &'static str)
        ensures
            *self == Section::Buffer ==> r@ == "Buffer"@,
            *self == Section::ScaleFactor ==> r@ == "Scale Factor"@,
    {
        match self {
            Section::Buffer => "Buffer",
            Section::ScaleFactor => "Scale Factor",
        }
    }
}

/// The settings screen: the window it lives in and the open section.
#[derive(Debug, Clone)]
pub struct Settings {
    /// The identifier of the window showing the screen.
    pub window: u64,
    /// The section currently open.
    pub section: Section,
}

impl Settings {
    /// A freshly opened settings screen starts on the buffer section.
    pub fn new(window: u64) -> (s: Self)
        ensures
            s.window == window,
            s.section == Section::Buffer,
    {
        Settings { window, section: Section::Buffer }
    }

    /// Open the given section.
    pub fn open_section(&mut self, section: Section)
        ensures
            final(self).window == old(self).window,
            final(self).section == section,
    {
        self.section = section;
    }
}

} // verus!
