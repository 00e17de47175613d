//! The decisions taken while a credential is resolved: it is loaded, and
//! where none that can be used was found it is asked for and stored.

use vstd::prelude::*;
use crate::model::Credential;

verus! {

/// Where the resolution stands, and thereby what is to be done next.
#[derive(Debug)]
pub enum Stage {
    /// The stored credential is to be loaded.
    Loading,
    /// The credential is to be asked for.
    Prompting,
    /// The credential that was entered is to be stored.
    Storing(Credential),
    /// The resolution has ended with this credential.
    Ready(Credential),
    /// The resolution has failed: the credential could not be stored.
    Failed,
}

/// What came of the step that a stage asked for.
#[derive(Debug)]
pub enum Event {
    /// The store held this credential.
    Loaded(Credential),
    /// The store could not be read.
    LoadFailed,
    /// This credential was entered.
    Entered(Credential),
    /// The credential was stored.
    Stored,
    /// The credential could not be stored.
    StoreFailed,
}

/// A credential can be used where its token is not empty.
pub open spec fn usable(c: Credential) -> bool {
    c.api_token@.len() > 0
}

/// The stage that follows `stage` on `event`. A credential that was loaded
/// ends the resolution where it can be used; one that cannot, and a store that
/// could not be read, lead to the prompt. What was entered is stored, and only
/// a store that fails makes the resolution fail. An event that the stage does
/// not wait for leaves the stage as it is.
pub open spec fn advance_of(stage: Stage, event: Event) -> Stage {
    match (stage, event) {
        (Stage::Loading, Event::Loaded(c)) => if usable(c) {
            Stage::Ready(c)
        } else {
            Stage::Prompting
        },
        (Stage::Loading, Event::LoadFailed) => Stage::Prompting,
        (Stage::Prompting, Event::Entered(c)) => Stage::Storing(c),
        (Stage::Storing(c), Event::Stored) => Stage::Ready(c),
        (Stage::Storing(_), Event::StoreFailed) => Stage::Failed,
        _ => stage,
    }
}

/// Whether the credential can be used.
pub fn is_usable(c: &Credential) -> (r: bool)
    ensures
        r == usable(*c),
{
    !c.api_token.as_str().is_empty()
}

/// The stage at which every resolution starts.
pub fn start() -> (r: Stage)
    ensures
        r == Stage::Loading,
{
    Stage::Loading
}

/// The stage that follows `stage` on `event`.
pub fn advance(stage: Stage, event: Event) -> (next: Stage)
    ensures
        next == advance_of(stage, event),
{
    match (stage, event) {
        (Stage::Loading, Event::Loaded(c)) => {
            if is_usable(&c) {
                Stage::Ready(c)
            } else {
                Stage::Prompting
            }
        },
        (Stage::Loading, Event::LoadFailed) => Stage::Prompting,
        (Stage::Prompting, Event::Entered(c)) => Stage::Storing(c),
        (Stage::Storing(c), Event::Stored) => Stage::Ready(c),
        (Stage::Storing(_), Event::StoreFailed) => Stage::Failed,
        (stage, _) => stage,
    }
}

/// A whole resolution: how it ended, what the store holds after it, and
/// whether the credential was asked for.
pub struct Resolution {
    pub end: Stage,
    pub stored: Option<Credential>,
    pub prompted: bool,
}

/// The resolution against a store that holds `stored` (nothing readable where
/// it is `None`), where `entered` is what the prompt would be answered with
/// and `writable` says whether the store takes a new credential.
pub open spec fn resolution_of(stored: Option<Credential>, entered: Credential, writable: bool) -> Resolution {
    let loaded = advance_of(
        Stage::Loading,
        match stored {
            Some(c) => Event::Loaded(c),
            None => Event::LoadFailed,
        },
    );
    if loaded is Prompting {
        let storing = advance_of(loaded, Event::Entered(entered));
        Resolution {
            end: advance_of(storing, if writable { Event::Stored } else { Event::StoreFailed }),
            stored: if writable { Some(entered) } else { stored },
            prompted: true,
        }
    } else {
        Resolution { end: loaded, stored, prompted: false }
    }
}

/// A stored credential with an empty token leads where a store that cannot be
/// read leads: to the prompt.
pub proof fn lemma_empty_token_is_absent(c: Credential)
    requires
        c.api_token@.len() == 0,
    ensures
        advance_of(Stage::Loading, Event::Loaded(c)) == advance_of(Stage::Loading, Event::LoadFailed),
        advance_of(Stage::Loading, Event::Loaded(c)) == Stage::Prompting,
        forall|entered: Credential, writable: bool|
            #[trigger] resolution_of(Some(c), entered, writable).end == resolution_of(None, entered, writable).end
            && resolution_of(Some(c), entered, writable).prompted,
{
}

/// A resolution fails only where the credential had to be asked for and the
/// store did not take it; otherwise it ends with a credential.
pub proof fn lemma_resolution_ends(stored: Option<Credential>, entered: Credential, writable: bool)
    ensures
        resolution_of(stored, entered, writable).end is Failed <==> !writable && !(stored is Some
            && usable(stored->0)),
        !(resolution_of(stored, entered, writable).end is Failed) ==> resolution_of(
            stored,
            entered,
            writable,
        ).end is Ready,
{
}

/// A resolution that ended with a credential that can be used is repeated by
/// the next one against the store as it left it: the same credential, the
/// store untouched, and no prompt, whatever would be entered.
pub proof fn lemma_resolution_idempotent(
    stored: Option<Credential>,
    entered: Credential,
    writable: bool,
    entered_again: Credential,
    writable_again: bool,
)
    requires
        resolution_of(stored, entered, writable).end is Ready,
        usable(resolution_of(stored, entered, writable).end->Ready_0),
    ensures
        resolution_of(resolution_of(stored, entered, writable).stored, entered_again, writable_again)
            == (Resolution {
            end: resolution_of(stored, entered, writable).end,
            stored: resolution_of(stored, entered, writable).stored,
            prompted: false,
        }),
{
}

} // verus!
