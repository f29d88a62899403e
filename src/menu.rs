use vstd::prelude::*;

verus! {

/// The entry of the web front end's menu that is highlighted.
#[derive(Debug, Clone, Copy, PartialEq, Eq, Structural)]
pub enum ActiveMenu {
    Unselected,
    Home,
    Worlds,
}

impl Default for ActiveMenu {
    fn default() -> (r: ActiveMenu)
        ensures
            r == ActiveMenu::Unselected,
    {
        ActiveMenu::Unselected
    }
}

impl ActiveMenu {
    /// The name templates know the entry by; empty for none.
    pub open spec fn name_spec(self) -> Seq<char> {
        match self {
            ActiveMenu::Unselected => ""@,
            ActiveMenu::Home => "home"@,
            ActiveMenu::Worlds => "worlds"@,
        }
    }

    /// The name templates know the entry by; empty for none.
    pub fn as_str(&self) -> (r: &'static str)
        ensures
            r@ == self.name_spec(),
    {
        match self {
            ActiveMenu::Unselected => "",
            ActiveMenu::Home => "home",
            ActiveMenu::Worlds => "worlds",
        }
    }
}

} // verus!
