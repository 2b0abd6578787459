//! The menu in which the number of poles and the number of disks are chosen.

use crate::input::KeyCode;
use vstd::prelude::*;

verus! {

/// The fewest poles that can be chosen.
pub const MIN_POLES: usize = 3;

/// The most poles that can be chosen.
pub const MAX_POLES: usize = 7;

/// The fewest disks that can be chosen.
pub const MIN_DISKS: usize = 1;

/// The most disks that can be chosen.
pub const MAX_DISKS: usize = 12;

/// The number of poles that the menu starts with.
pub const DEFAULT_POLES: usize = 3;

/// The number of disks that the menu starts with.
pub const DEFAULT_DISKS: usize = 3;

/// The state of the menu: which of the two options is selected, and the
/// value of each. Option 0 is the number of poles, option 1 the number of disks.
#[derive(Clone, Copy, Debug, PartialEq, Eq, Structural)]
pub struct Menu {
    pub cursor: usize,
    pub poles: usize,
    pub disks: usize,
}

impl Menu {
    /// One of the two options is selected and both values are within their limits.
    pub open spec fn wf(self) -> bool {
        &&& self.cursor <= 1
        &&& MIN_POLES <= self.poles <= MAX_POLES
        &&& MIN_DISKS <= self.disks <= MAX_DISKS
    }

    /// The menu as it opens.
    pub open spec fn initial() -> Menu {
        Menu { cursor: 0, poles: DEFAULT_POLES, disks: DEFAULT_DISKS }
    }

    /// The selected value one higher, unless it is at its upper limit.
    pub open spec fn raised(self) -> Menu {
        if self.cursor == 0 {
            Menu {
                poles: if self.poles < MAX_POLES {
                    (self.poles + 1) as usize
                } else {
                    self.poles
                },
                ..self
            }
        } else {
            Menu {
                disks: if self.disks < MAX_DISKS {
                    (self.disks + 1) as usize
                } else {
                    self.disks
                },
                ..self
            }
        }
    }

    /// The selected value one lower, unless it is at its lower limit.
    pub open spec fn lowered(self) -> Menu {
        if self.cursor == 0 {
            Menu {
                poles: if self.poles > MIN_POLES {
                    (self.poles - 1) as usize
                } else {
                    self.poles
                },
                ..self
            }
        } else {
            Menu {
                disks: if self.disks > MIN_DISKS {
                    (self.disks - 1) as usize
                } else {
                    self.disks
                },
                ..self
            }
        }
    }

    /// The menu after a key: left and right select an option, up and down
    /// change the selected value, any other key leaves the menu as it is.
    pub open spec fn after(self, code: KeyCode) -> Menu {
        match code {
            KeyCode::Left => Menu { cursor: 0, ..self },
            KeyCode::Right => Menu { cursor: 1, ..self },
            KeyCode::Up => self.raised(),
            KeyCode::Down => self.lowered(),
            _ => self,
        }
    }

    /// The menu as it opens: the number of poles selected, both values at
    /// their defaults.
    pub fn new() -> (menu: Menu)
        ensures
            menu == Menu::initial(),
            menu.wf(),
    {
        Menu { cursor: 0, poles: DEFAULT_POLES, disks: DEFAULT_DISKS }
    }

    /// Takes a key: left and right select an option, up and down change the
    /// selected value within its limits.
    pub fn press(&mut self, code: KeyCode)
        requires
            old(self).wf(),
        ensures
            final(self).wf(),
            *final(self) == old(self).after(code),
    {
        match code {
            KeyCode::Left => {
                self.cursor = 0;
            },
            KeyCode::Right => {
                self.cursor = 1;
            },
            KeyCode::Up => {
                if self.cursor == 0 {
                    if self.poles < MAX_POLES {
                        self.poles += 1;
                    }
                } else {
                    if self.disks < MAX_DISKS {
                        self.disks += 1;
                    }
                }
            },
            KeyCode::Down => {
                if self.cursor == 0 {
                    if self.poles > MIN_POLES {
                        self.poles -= 1;
                    }
                } else {
                    if self.disks > MIN_DISKS {
                        self.disks -= 1;
                    }
                }
            },
            _ => {},
        }
    }
}

/// The values of the menu stay within their limits whatever keys are pressed.
pub proof fn law_menu_stays_valid(menu: Menu, code: KeyCode)
    requires
        menu.wf(),
    ensures
        menu.after(code).wf(),
{
}

} // verus!
