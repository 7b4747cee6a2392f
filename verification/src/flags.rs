//! On/off switches given as text (environment values, ini fields).

use vstd::prelude::*;
use crate::text::{trim, norm, trimmed, normalized, eq_str};

verus! {

/// A switch value counts as on unless it is blank, `0` or `false` (any case),
/// ignoring surrounding whitespace.
pub open spec fn flag_on(v: Seq<char>) -> bool {
    !(trim(v).len() == 0 || trim(v) == "0"@ || norm(v) == "false"@)
}

pub fn flag_value(v: &str) -> (on: bool)
    ensures
        on == flag_on(v@),
{
    let t = trimmed(v);
    let n = normalized(v);
    !(t.len() == 0 || eq_str(&t, "0") || eq_str(&n, "false"))
}

/// Either of two names for one switch (the new name, then the legacy one) is
/// on; a name that is not set counts as off.
pub fn env_flag_alias(new: Option<&str>, old: Option<&str>) -> (on: bool)
    ensures
        on == ((new is Some && flag_on(new->0@)) || (old is Some && flag_on(old->0@))),
{
    let a = match new {
        Some(v) => flag_value(v),
        None => false,
    };
    let b = match old {
        Some(v) => flag_value(v),
        None => false,
    };
    a || b
}

} // verus!
