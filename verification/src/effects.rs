//! Configuration shared by effects: which keys an effect touches, which
//! motion counts toward a velocity reading, and which way a directional
//! noise travels.  The effect color formulas themselves are floating-point
//! collaborators and live with the driver around the library.

use vstd::prelude::*;

verus! {

/// Change what keys effect and what not.
#[derive(Clone, Debug, Default, PartialEq, Eq, PartialOrd, Ord)]
pub enum KeyFilter {
    /// Allow all keys
    #[default]
    All,
    /// Include these keys
    Included(Vec<(u8, u8)>),
    /// Exclude these keys
    Excluded(Vec<(u8, u8)>),
}

impl KeyFilter {
    /// The filter rule: every key, or exactly the included list, or
    /// everything but the excluded list.
    pub open spec fn allows_spec(self, key: (u8, u8)) -> bool {
        match self {
            KeyFilter::All => true,
            KeyFilter::Included(items) => items@.contains(key),
            KeyFilter::Excluded(items) => !items@.contains(key),
        }
    }

    /// Whether an effect under this filter touches the given key.
    pub fn allows(&self, key: (u8, u8)) -> (r: bool)
        ensures
            r == self.allows_spec(key),
    {
        match self {
            KeyFilter::All => true,
            KeyFilter::Included(items) => contains_id(items, key),
            KeyFilter::Excluded(items) => !contains_id(items, key),
        }
    }
}

/// Whether the key identity occurs in the list.
fn contains_id(items: &Vec<(u8, u8)>, key: (u8, u8)) -> (r: bool)
    ensures
        r == items@.contains(key),
{
    let n = items.len();
    let mut i: usize = 0;
    while i < n
        invariant
            i <= n,
            n == items@.len(),
            forall|t: int| 0 <= t < i ==> #[trigger] items@[t] != key,
        decreases n - i,
    {
        let entry = items[i];
        if entry.0 == key.0 && entry.1 == key.1 {
            proof {
                assert(items@[i as int] == key);
            }
            return true;
        }
        i = i + 1;
    }
    proof {
        if items@.contains(key) {
            let w = choose|w: int| 0 <= w < items@.len() && items@[w] == key;
            assert(items@[w] != key);
        }
    }
    false
}

/// What motion counts toward a velocity-driven effect.
#[derive(Clone, Copy, Debug, Default, PartialEq, Eq, Structural)]
pub enum VelocityType {
    /// Both up and down motion counts to the velocity
    #[default]
    Both,
    /// Only up motion counts to the velocity
    Up,
    /// Only down motion counts to the velocity
    Down,
}

/// Direction of a directional noise effect.
#[derive(Clone, Copy, Debug, Default, PartialEq, Eq, Structural)]
pub enum Direction {
    #[default]
    Horizontal,
    Vertical,
    /// Through the third axis: the pattern changes in place over time.
    Depth,
}

} // verus!
