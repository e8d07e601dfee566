//! Durable projection cursor: a compare-and-set cursor that a downstream publisher advances one
//! event at a time after each durable publish acknowledgement.

use vstd::prelude::*;
use vstd::string::StringSliceAdditionalSpecFns;
use crate::text::{
    is_blank, is_blank_text, nat_digits, push_number, push_str, text_bytes, utf8_string,
};

verus! {

pub const SNAPSHOT_FORMAT_VERSION: u32 = 1;

#[derive(Debug, Clone, PartialEq, Eq)]
pub struct ProjectionCursorStatus {
    pub account_id: String,
    pub projection_id: String,
    pub cursor: u64,
    pub last_event_id: Option<String>,
}

#[derive(Debug, Clone, PartialEq, Eq)]
pub struct AdvanceProjectionCursorInput {
    pub expected_cursor: u64,
    pub next_cursor: u64,
    pub event_id: String,
}

#[derive(Debug, Clone, PartialEq, Eq)]
pub struct ProjectionCursorReceipt {
    pub cursor: u64,
    pub event_id: String,
    pub replayed: bool,
}

#[derive(Debug, Clone, PartialEq, Eq)]
pub enum ProjectionCursorError {
    InvalidIdentity { detail: String },
    EmptyEventIdentity,
    NonContiguousAdvance { expected: u64, proposed: u64 },
    CursorConflict { expected: u64, actual: u64 },
    ReplayIdentityConflict { cursor: u64, existing_event_id: String, proposed_event_id: String },
}

/// Why a decoded snapshot cannot be restored.
#[derive(Debug, Clone, PartialEq, Eq)]
pub enum CursorSnapshotError {
    UnsupportedVersion { found: u32 },
    IdentityMismatch,
    InconsistentState,
}

/// The state a projection cursor snapshot carries.
#[derive(Debug, Clone, PartialEq, Eq)]
pub struct CursorSnapshot {
    pub format_version: u32,
    pub account_id: String,
    pub projection_id: String,
    pub cursor: u64,
    pub last_event_id: Option<String>,
}

/// The durable projection cursor of one account projection.
#[derive(Debug)]
pub struct ProjectionCursorAgentImpl {
    pub account_id: String,
    pub projection_id: String,
    pub cursor: u64,
    pub last_event_id: Option<String>,
    pub initialization_error: Option<String>,
}

pub open spec fn string_option_view(o: Option<String>) -> Option<Seq<char>> {
    match o {
        Some(s) => Some(s@),
        None => None,
    }
}

/// The abstract state of a cursor: identity error, cursor position and last event identity.
pub struct CursorState {
    pub initialization_error: Option<Seq<char>>,
    pub cursor: u64,
    pub last_event_id: Option<Seq<char>>,
}

/// The outcome of an advance request.
pub enum AdvanceOutcome {
    Advanced { cursor: u64, event_id: Seq<char> },
    Replayed { cursor: u64, event_id: Seq<char> },
    InvalidIdentity { detail: Seq<char> },
    EmptyEventIdentity,
    NonContiguousAdvance { expected: u64, proposed: u64 },
    CursorConflict { expected: u64, actual: u64 },
    ReplayIdentityConflict { cursor: u64, existing: Seq<char>, proposed_event: Seq<char> },
}

/// What an advance request does to a cursor state: the next state and the outcome.
pub open spec fn advance_step(
    s: CursorState,
    expected: u64,
    next: u64,
    event_id: Seq<char>,
) -> (CursorState, AdvanceOutcome) {
    if s.initialization_error is Some {
        (s, AdvanceOutcome::InvalidIdentity { detail: s.initialization_error->0 })
    } else if is_blank_text(event_id) {
        (s, AdvanceOutcome::EmptyEventIdentity)
    } else if next == s.cursor {
        match s.last_event_id {
            Some(existing) => if existing == event_id {
                (s, AdvanceOutcome::Replayed { cursor: s.cursor, event_id: existing })
            } else {
                (
                    s,
                    AdvanceOutcome::ReplayIdentityConflict {
                        cursor: s.cursor,
                        existing,
                        proposed_event: event_id,
                    },
                )
            },
            None => (s, AdvanceOutcome::CursorConflict { expected, actual: s.cursor }),
        }
    } else if expected != s.cursor {
        (s, AdvanceOutcome::CursorConflict { expected, actual: s.cursor })
    } else if s.cursor == u64::MAX {
        (s, AdvanceOutcome::NonContiguousAdvance { expected: s.cursor, proposed: next })
    } else if next != s.cursor + 1 {
        (s, AdvanceOutcome::NonContiguousAdvance { expected: (s.cursor + 1) as u64, proposed: next })
    } else {
        (
            CursorState { cursor: next, last_event_id: Some(event_id), ..s },
            AdvanceOutcome::Advanced { cursor: next, event_id },
        )
    }
}

/// The outcome as the agent reports it.
pub open spec fn outcome_matches(
    outcome: AdvanceOutcome,
    res: Result<ProjectionCursorReceipt, ProjectionCursorError>,
) -> bool {
    match outcome {
        AdvanceOutcome::Advanced { cursor, event_id } => res matches Ok(r) && r.cursor == cursor
            && r.event_id@ == event_id && !r.replayed,
        AdvanceOutcome::Replayed { cursor, event_id } => res matches Ok(r) && r.cursor == cursor
            && r.event_id@ == event_id && r.replayed,
        AdvanceOutcome::InvalidIdentity { detail } => res matches Err(
            ProjectionCursorError::InvalidIdentity { detail: d },
        ) && d@ == detail,
        AdvanceOutcome::EmptyEventIdentity => res matches Err(
            ProjectionCursorError::EmptyEventIdentity,
        ),
        AdvanceOutcome::NonContiguousAdvance { expected, proposed } => res == Err::<
            ProjectionCursorReceipt,
            ProjectionCursorError,
        >(ProjectionCursorError::NonContiguousAdvance { expected, proposed }),
        AdvanceOutcome::CursorConflict { expected, actual } => res == Err::<
            ProjectionCursorReceipt,
            ProjectionCursorError,
        >(ProjectionCursorError::CursorConflict { expected, actual }),
        AdvanceOutcome::ReplayIdentityConflict { cursor, existing, proposed_event } => res matches Err(
            ProjectionCursorError::ReplayIdentityConflict {
                cursor: c,
                existing_event_id: e,
                proposed_event_id: p,
            },
        ) && c == cursor && e@ == existing && p@ == proposed_event,
    }
}

impl ProjectionCursorAgentImpl {
    pub open spec fn state(&self) -> CursorState {
        CursorState {
            initialization_error: string_option_view(self.initialization_error),
            cursor: self.cursor,
            last_event_id: string_option_view(self.last_event_id),
        }
    }

    /// A fresh cursor at zero; blank identities leave it unusable until a snapshot restores it.
    pub fn new(account_id: String, projection_id: String) -> (res: Self)
        ensures
            res.account_id == account_id,
            res.projection_id == projection_id,
            res.cursor == 0,
            res.last_event_id is None,
            res.initialization_error is Some <==> (is_blank_text(account_id@) || is_blank_text(
                projection_id@,
            )),
            cursor_paired(res.state()),
    {
        let initialization_error = if is_blank(account_id.as_str()) || is_blank(
            projection_id.as_str(),
        ) {
            Some("account and projection identities must not be empty".to_owned())
        } else {
            None
        };
        ProjectionCursorAgentImpl {
            account_id,
            projection_id,
            cursor: 0,
            last_event_id: None,
            initialization_error,
        }
    }

    fn validate_identity(&self) -> (res: Result<(), ProjectionCursorError>)
        ensures
            self.initialization_error is None ==> res is Ok,
            self.initialization_error matches Some(d) ==> (res matches Err(
                ProjectionCursorError::InvalidIdentity { detail },
            ) && detail@ == d@),
    {
        match &self.initialization_error {
            Some(detail) => Err(ProjectionCursorError::InvalidIdentity { detail: detail.clone() }),
            None => Ok(()),
        }
    }

    /// The cursor position and identity.
    pub fn status(&self) -> (res: Result<ProjectionCursorStatus, ProjectionCursorError>)
        ensures
            self.initialization_error matches Some(d) ==> (res matches Err(
                ProjectionCursorError::InvalidIdentity { detail },
            ) && detail@ == d@),
            self.initialization_error is None ==> (res matches Ok(st) && st.account_id
                == self.account_id && st.projection_id == self.projection_id && st.cursor
                == self.cursor && st.last_event_id == self.last_event_id),
    {
        self.validate_identity()?;
        Ok(
            ProjectionCursorStatus {
                account_id: self.account_id.clone(),
                projection_id: self.projection_id.clone(),
                cursor: self.cursor,
                last_event_id: self.last_event_id.clone(),
            },
        )
    }

    /// Compare-and-set after a downstream durable publish acknowledgement.
    pub fn advance(&mut self, input: AdvanceProjectionCursorInput) -> (res: Result<
        ProjectionCursorReceipt,
        ProjectionCursorError,
    >)
        ensures
            final(self).state() == advance_step(
                old(self).state(),
                input.expected_cursor,
                input.next_cursor,
                input.event_id@,
            ).0,
            outcome_matches(
                advance_step(
                    old(self).state(),
                    input.expected_cursor,
                    input.next_cursor,
                    input.event_id@,
                ).1,
                res,
            ),
            final(self).account_id == old(self).account_id,
            final(self).projection_id == old(self).projection_id,
    {
        self.validate_identity()?;
        if is_blank(input.event_id.as_str()) {
            return Err(ProjectionCursorError::EmptyEventIdentity);
        }
        if input.next_cursor == self.cursor {
            return match &self.last_event_id {
                Some(existing) => {
                    if *existing == input.event_id {
                        Ok(
                            ProjectionCursorReceipt {
                                cursor: self.cursor,
                                event_id: existing.clone(),
                                replayed: true,
                            },
                        )
                    } else {
                        Err(
                            ProjectionCursorError::ReplayIdentityConflict {
                                cursor: self.cursor,
                                existing_event_id: existing.clone(),
                                proposed_event_id: input.event_id,
                            },
                        )
                    }
                },
                None => Err(
                    ProjectionCursorError::CursorConflict {
                        expected: input.expected_cursor,
                        actual: self.cursor,
                    },
                ),
            };
        }
        if input.expected_cursor != self.cursor {
            return Err(
                ProjectionCursorError::CursorConflict {
                    expected: input.expected_cursor,
                    actual: self.cursor,
                },
            );
        }
        let expected_next = match self.cursor.checked_add(1) {
            Some(n) => n,
            None => {
                return Err(
                    ProjectionCursorError::NonContiguousAdvance {
                        expected: self.cursor,
                        proposed: input.next_cursor,
                    },
                );
            },
        };
        if input.next_cursor != expected_next {
            return Err(
                ProjectionCursorError::NonContiguousAdvance {
                    expected: expected_next,
                    proposed: input.next_cursor,
                },
            );
        }
        self.cursor = input.next_cursor;
        self.last_event_id = Some(input.event_id.clone());
        Ok(ProjectionCursorReceipt { cursor: self.cursor, event_id: input.event_id, replayed: false })
    }

    /// Restores a decoded snapshot; on error the cursor is left unchanged.
    pub fn restore(&mut self, snapshot: CursorSnapshot) -> (res: Result<(), CursorSnapshotError>)
        ensures
            res == restore_check(
                snapshot.format_version,
                snapshot.account_id@ == old(self).account_id@ && snapshot.projection_id@
                    == old(self).projection_id@,
                snapshot.cursor,
                snapshot.last_event_id is Some,
            ),
            res is Err ==> *final(self) == *old(self),
            res is Ok ==> final(self).cursor == snapshot.cursor && final(self).last_event_id
                == snapshot.last_event_id && final(self).initialization_error is None
                && final(self).account_id == old(self).account_id && final(self).projection_id
                == old(self).projection_id,
            res is Ok ==> cursor_paired(final(self).state()),
    {
        if snapshot.format_version != SNAPSHOT_FORMAT_VERSION {
            return Err(CursorSnapshotError::UnsupportedVersion { found: snapshot.format_version });
        }
        if snapshot.account_id != self.account_id || snapshot.projection_id != self.projection_id {
            return Err(CursorSnapshotError::IdentityMismatch);
        }
        if (snapshot.cursor == 0 && snapshot.last_event_id.is_some()) || (snapshot.cursor > 0
            && snapshot.last_event_id.is_none()) {
            return Err(CursorSnapshotError::InconsistentState);
        }
        self.cursor = snapshot.cursor;
        self.last_event_id = snapshot.last_event_id;
        self.initialization_error = None;
        Ok(())
    }
}

/// Which snapshots are restored, and why the others are refused.
pub open spec fn restore_check(
    version: u32,
    identity_matches: bool,
    cursor: u64,
    has_event: bool,
) -> Result<(), CursorSnapshotError> {
    if version != SNAPSHOT_FORMAT_VERSION {
        Err(CursorSnapshotError::UnsupportedVersion { found: version })
    } else if !identity_matches {
        Err(CursorSnapshotError::IdentityMismatch)
    } else if (cursor == 0) == has_event {
        Err(CursorSnapshotError::InconsistentState)
    } else {
        Ok(())
    }
}

impl CursorSnapshotError {
    /// The error text reported to the agent runtime.
    pub fn message(&self) -> (res: String)
        ensures
            self matches CursorSnapshotError::UnsupportedVersion { found } ==> text_bytes(res@)
                == text_bytes("unsupported projection cursor snapshot version "@) + nat_digits(
                found as nat,
            ) + text_bytes("; expected "@) + nat_digits(SNAPSHOT_FORMAT_VERSION as nat),
            self is IdentityMismatch ==> res@ == "projection cursor snapshot identity does not match agent identity"@,
            self is InconsistentState ==> res@ == "projection cursor snapshot state is inconsistent"@,
    {
        match self {
            CursorSnapshotError::UnsupportedVersion { found } => {
                let mut out: Vec<u8> = Vec::new();
                push_str(&mut out, "unsupported projection cursor snapshot version ");
                push_number(&mut out, *found as u64);
                push_str(&mut out, "; expected ");
                push_number(&mut out, SNAPSHOT_FORMAT_VERSION as u64);
                utf8_string(out)
            },
            CursorSnapshotError::IdentityMismatch => "projection cursor snapshot identity does not match agent identity".to_owned(),
            CursorSnapshotError::InconsistentState => "projection cursor snapshot state is inconsistent".to_owned(),
        }
    }
}

/// A cursor at zero has seen no event, and a cursor past zero remembers its last one.
pub open spec fn cursor_paired(s: CursorState) -> bool {
    (s.cursor == 0) == (s.last_event_id is None)
}

/// Every advance keeps a cursor paired with its last event, and moves it by zero or one: it
/// never goes back and never skips. A new cursor and a restored one start paired, so every
/// cursor reached through `new`, `restore` and `advance` is paired.
pub proof fn law_advance_keeps_cursor_paired(
    s: CursorState,
    expected: u64,
    next: u64,
    event_id: Seq<char>,
)
    requires
        cursor_paired(s),
    ensures
        ({
            let t = advance_step(s, expected, next, event_id).0;
            &&& cursor_paired(t)
            &&& t.cursor == s.cursor || t.cursor == s.cursor + 1
        }),
{
}

/// The state reached from `s` by the advance requests `inputs` (expected cursor, next cursor,
/// event identity), in order.
pub open spec fn advance_all(s: CursorState, inputs: Seq<(u64, u64, Seq<char>)>) -> CursorState
    decreases inputs.len(),
{
    if inputs.len() == 0 {
        s
    } else {
        let last = inputs.last();
        advance_step(advance_all(s, inputs.drop_last()), last.0, last.1, last.2).0
    }
}

/// Whatever advance requests a paired cursor receives, it stays paired, and it is never below
/// where it started nor more than one step per request above it. In particular a cursor built
/// by `new` (at zero, with no event) and then only advanced is paired at every point.
pub proof fn law_advances_keep_cursor_paired(s: CursorState, inputs: Seq<(u64, u64, Seq<char>)>)
    requires
        cursor_paired(s),
    ensures
        cursor_paired(advance_all(s, inputs)),
        s.cursor <= advance_all(s, inputs).cursor <= s.cursor + inputs.len(),
    decreases inputs.len(),
{
    if inputs.len() > 0 {
        law_advances_keep_cursor_paired(s, inputs.drop_last());
        let last = inputs.last();
        law_advance_keeps_cursor_paired(advance_all(s, inputs.drop_last()), last.0, last.1, last.2);
    }
}

/// A successful advance moves the cursor by exactly one and records the event; every other
/// outcome leaves the cursor state as it was.
pub proof fn law_advance_is_contiguous(s: CursorState, expected: u64, next: u64, event_id: Seq<char>)
    ensures
        ({
            let (t, outcome) = advance_step(s, expected, next, event_id);
            &&& outcome is Advanced ==> t.cursor == s.cursor + 1 && t.last_event_id == Some(
                event_id,
            ) && expected == s.cursor
            &&& !(outcome is Advanced) ==> t == s
        }),
{
}

/// Replaying an advance that succeeded is answered as a replay of the same cursor and event,
/// and changes nothing.
pub proof fn law_advance_replay_is_idempotent(
    s: CursorState,
    expected: u64,
    next: u64,
    event_id: Seq<char>,
)
    requires
        advance_step(s, expected, next, event_id).1 is Advanced,
    ensures
        ({
            let t = advance_step(s, expected, next, event_id).0;
            let (u, again) = advance_step(t, expected, next, event_id);
            &&& u == t
            &&& again == AdvanceOutcome::Replayed { cursor: next, event_id }
        }),
{
}


/// A request for the current cursor is a replay only when it carries the event already recorded
/// there; a different event at the same cursor is refused as a replay identity conflict, naming
/// both events, and changes nothing.
pub proof fn law_replay_requires_the_recorded_event(
    s: CursorState,
    expected: u64,
    next: u64,
    event_id: Seq<char>,
)
    ensures
        ({
            let (t, outcome) = advance_step(s, expected, next, event_id);
            &&& outcome matches AdvanceOutcome::Replayed { cursor, event_id: replayed } ==> next
                == s.cursor && cursor == s.cursor && replayed == event_id && s.last_event_id
                == Some(event_id) && t == s
            &&& (s.initialization_error is None && !is_blank_text(event_id) && next == s.cursor
                && s.last_event_id is Some && s.last_event_id->0 != event_id) ==> outcome
                == AdvanceOutcome::ReplayIdentityConflict {
                cursor: s.cursor,
                existing: s.last_event_id->0,
                proposed_event: event_id,
            } && t == s
        }),
{
}

} // verus!
