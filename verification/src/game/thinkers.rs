//! The scripted behaviors a map can give to a creature.

use vstd::prelude::*;

verus! {

/// A scripted behavior.
#[derive(Clone, Copy, Debug, PartialEq, Eq, Structural)]
pub enum Thinker {
    /// Greets whoever is around, every now and then.
    Talker,
}

/// Whether `value` reads `text`.
pub fn is_text(value: &String, text: &str) -> (same: bool)
    ensures
        same == (value@ == text@),
{
    *value == text.to_owned()
}

/// The behavior registered under `name`, if there is one.
pub open spec fn spec_get_thinker(name: Seq<char>) -> Option<Thinker> {
    if name == "Talker"@ {
        Some(Thinker::Talker)
    } else {
        None
    }
}

/// The behavior registered under `name`, or a message that says that there
/// is none.
pub fn get_thinker(name: &String) -> (thinker: Result<Thinker, String>)
    ensures
        thinker is Ok <==> spec_get_thinker(name@) is Some,
        thinker is Ok ==> Some(thinker->Ok_0) == spec_get_thinker(name@),
        thinker is Err ==> thinker->Err_0@ == "Script "@ + name@ + " not implemented"@,
{
    if is_text(name, "Talker") {
        Ok(get_talker_thinker())
    } else {
        Err("Script ".to_owned().concat(name.as_str()).concat(" not implemented"))
    }
}

/// The behavior of one who talks.
pub fn get_talker_thinker() -> (thinker: Thinker)
    ensures
        thinker == Thinker::Talker,
{
    Thinker::Talker
}

} // verus!
