//! Reconciliation of the running driver with its configuration.
//!
//! Each attempt to apply a configuration is a generation. It begins as
//! reconciling and ends as converged or failed, with a bounded diagnostic.

use vstd::prelude::*;
use vstd::utf8::*;

use crate::text;

verus! {

/// The most bytes that a stored diagnostic takes.
pub const MAX_DIAGNOSTIC_BYTES: usize = 1536;

#[derive(Clone, Copy, Debug, PartialEq, Eq, Structural)]
pub enum ConfigReconciliationState {
    Unavailable,
    Reconciling,
    Converged,
    Failed,
}

#[derive(Clone, Copy, Debug, PartialEq, Eq, Structural)]
pub enum ConfigReconciliationOperation {
    Startup,
    Reload,
    Create,
    Update,
    Delete,
}

#[derive(Clone, Copy, Debug, PartialEq, Eq, Structural)]
pub enum ConfigReconciliationObjectType {
    Device,
    Line,
}

/// What set off a reconciliation.
#[derive(Debug, PartialEq, Eq)]
pub struct ConfigReconciliationTrigger {
    operation: ConfigReconciliationOperation,
    object_type: Option<ConfigReconciliationObjectType>,
    object_id: Option<String>,
}

/// The contents of [`ConfigReconciliationTrigger`].
pub struct TriggerView {
    pub operation: ConfigReconciliationOperation,
    pub object_type: Option<ConfigReconciliationObjectType>,
    pub object_id: Option<text::Text>,
}

impl View for ConfigReconciliationTrigger {
    type V = TriggerView;

    closed spec fn view(&self) -> TriggerView {
        TriggerView {
            operation: self.operation,
            object_type: self.object_type,
            object_id: self.object_id.deep_view(),
        }
    }
}

impl ConfigReconciliationTrigger {
    pub fn startup() -> (r: Self)
        ensures
            r@ == (TriggerView {
                operation: ConfigReconciliationOperation::Startup,
                object_type: None,
                object_id: None,
            }),
    {
        ConfigReconciliationTrigger {
            operation: ConfigReconciliationOperation::Startup,
            object_type: None,
            object_id: None,
        }
    }

    pub fn reload() -> (r: Self)
        ensures
            r@ == (TriggerView {
                operation: ConfigReconciliationOperation::Reload,
                object_type: None,
                object_id: None,
            }),
    {
        ConfigReconciliationTrigger {
            operation: ConfigReconciliationOperation::Reload,
            object_type: None,
            object_id: None,
        }
    }

    pub fn mutation(
        operation: ConfigReconciliationOperation,
        object_type: ConfigReconciliationObjectType,
        object_id: String,
    ) -> (r: Self)
        ensures
            r@ == (TriggerView {
                operation,
                object_type: Some(object_type),
                object_id: Some(object_id@),
            }),
    {
        ConfigReconciliationTrigger {
            operation,
            object_type: Some(object_type),
            object_id: Some(object_id),
        }
    }
}

/// Where the reconciliation stands.
#[derive(Debug, PartialEq, Eq)]
pub struct ConfigReconciliationStatus {
    pub generation: u64,
    pub state: ConfigReconciliationState,
    pub operation: Option<ConfigReconciliationOperation>,
    pub object_type: Option<ConfigReconciliationObjectType>,
    pub object_id: Option<String>,
    pub diagnostic: Option<String>,
}

/// The contents of [`ConfigReconciliationStatus`].
pub struct StatusView {
    pub generation: u64,
    pub state: ConfigReconciliationState,
    pub operation: Option<ConfigReconciliationOperation>,
    pub object_type: Option<ConfigReconciliationObjectType>,
    pub object_id: Option<text::Text>,
    pub diagnostic: Option<text::Text>,
}

impl View for ConfigReconciliationStatus {
    type V = StatusView;

    open spec fn view(&self) -> StatusView {
        StatusView {
            generation: self.generation,
            state: self.state,
            operation: self.operation,
            object_type: self.object_type,
            object_id: self.object_id.deep_view(),
            diagnostic: self.diagnostic.deep_view(),
        }
    }
}

/// The status before any reconciliation.
pub open spec fn idle() -> StatusView {
    StatusView {
        generation: 0,
        state: ConfigReconciliationState::Unavailable,
        operation: None,
        object_type: None,
        object_id: None,
        diagnostic: None,
    }
}

impl Default for ConfigReconciliationStatus {
    fn default() -> (r: Self)
        ensures
            r@ == idle(),
    {
        ConfigReconciliationStatus {
            generation: 0,
            state: ConfigReconciliationState::Unavailable,
            operation: None,
            object_type: None,
            object_id: None,
            diagnostic: None,
        }
    }
}

impl Clone for ConfigReconciliationStatus {
    fn clone(&self) -> (r: Self)
        ensures
            r@ == self@,
    {
        ConfigReconciliationStatus {
            generation: self.generation,
            state: self.state,
            operation: self.operation,
            object_type: self.object_type,
            object_id: text::copy_option(&self.object_id),
            diagnostic: text::copy_option(&self.diagnostic),
        }
    }
}

// ---------------------------------------------------------------------------
// Diagnostics

/// How a character stands in a diagnostic: control characters become spaces.
pub open spec fn shown(c: char) -> char {
    if text::is_control(c) {
        ' '
    } else {
        c
    }
}

/// The number of bytes of a character in UTF-8.
pub open spec fn width(c: char) -> nat {
    if (c as u32) < 0x80 {
        1
    } else if (c as u32) < 0x800 {
        2
    } else if (c as u32) < 0x10000 {
        3
    } else {
        4
    }
}

/// The characters of `s`, as shown, up to the first that no longer fits into
/// `room` bytes.
pub open spec fn fitting(s: text::Text, room: nat) -> text::Text
    decreases s.len(),
{
    if s.len() == 0 || width(shown(s[0])) > room {
        Seq::empty()
    } else {
        seq![shown(s[0])] + fitting(s.drop_first(), (room - width(shown(s[0]))) as nat)
    }
}

/// The diagnostic kept of a failure.
pub open spec fn bounded(s: text::Text) -> text::Text {
    fitting(s, MAX_DIAGNOSTIC_BYTES as nat)
}

/// The number of bytes of a character in UTF-8.
fn utf8_width(c: char) -> (r: usize)
    ensures
        r == width(c),
{
    let code: u32 = c as u32;
    if code < 0x80 {
        1
    } else if code < 0x800 {
        2
    } else if code < 0x10000 {
        3
    } else {
        4
    }
}

/// The diagnostic kept of a failure: control characters become spaces, and the
/// text ends before the character that would exceed [`MAX_DIAGNOSTIC_BYTES`].
pub fn bounded_diagnostic(value: &str) -> (r: String)
    ensures
        r@ == bounded(value@),
{
    let chars = text::to_chars(value);
    let mut out = String::new();
    let mut room: usize = MAX_DIAGNOSTIC_BYTES;
    let mut i: usize = 0;
    assert(chars@.skip(0) =~= chars@);
    assert(out@ + fitting(chars@, room as nat) =~= fitting(chars@, room as nat));
    while i < chars.len()
        invariant
            chars@ == value@,
            i <= chars@.len(),
            bounded(value@) == out@ + fitting(chars@.skip(i as int), room as nat),
        decreases chars@.len() - i,
    {
        let c = if text::control(chars[i]) {
            ' '
        } else {
            chars[i]
        };
        let size: usize = utf8_width(c);
        let ghost rest = chars@.skip(i as int);
        assert(rest[0] == chars@[i as int]);
        if size > room {
            assert(out@ + Seq::<char>::empty() =~= out@);
            return out;
        }
        let ghost before = out@;
        out.push(c);
        room -= size;
        i += 1;
        assert(rest.drop_first() =~= chars@.skip(i as int));
        assert(before + (seq![c] + fitting(chars@.skip(i as int), room as nat)) =~= out@ + fitting(
            chars@.skip(i as int),
            room as nat,
        ));
    }
    assert(out@ + Seq::<char>::empty() =~= out@);
    out
}

/// A kept text takes no more bytes than it was given room for, and holds no
/// control character.
pub proof fn law_fitting_text_fits(s: text::Text, room: nat)
    ensures
        encode_utf8(fitting(s, room)).len() <= room,
        !text::any_control(fitting(s, room)),
    decreases s.len(),
{
    if s.len() != 0 && width(shown(s[0])) <= room {
        let left = (room - width(shown(s[0]))) as nat;
        let rest = fitting(s.drop_first(), left);
        law_fitting_text_fits(s.drop_first(), left);
        let all = fitting(s, room);
        assert(all.drop_first() =~= rest);
        assert forall|i: int| 0 <= i < all.len() implies !text::is_control(all[i]) by {
            if i > 0 {
                assert(all[i] == rest[i - 1]);
            }
        }
    }
}

/// A stored diagnostic is within [`MAX_DIAGNOSTIC_BYTES`], holds no control
/// character, and is the start of the failure text as shown. It is cut only
/// where the next character would not fit.
pub proof fn law_diagnostics_are_bounded_prefixes(s: text::Text)
    ensures
        encode_utf8(bounded(s)).len() <= MAX_DIAGNOSTIC_BYTES,
        !text::any_control(bounded(s)),
        bounded(s).len() <= s.len(),
        forall|i: int| 0 <= i < bounded(s).len() ==> #[trigger] bounded(s)[i] == shown(s[i]),
        bounded(s).len() < s.len() ==> encode_utf8(bounded(s)).len() + width(
            shown(s[bounded(s).len() as int]),
        ) > MAX_DIAGNOSTIC_BYTES,
{
    law_fitting_text_fits(s, MAX_DIAGNOSTIC_BYTES as nat);
    lemma_fitting_is_prefix(s, MAX_DIAGNOSTIC_BYTES as nat);
}

proof fn lemma_fitting_is_prefix(s: text::Text, room: nat)
    ensures
        fitting(s, room).len() <= s.len(),
        forall|i: int| 0 <= i < fitting(s, room).len() ==> #[trigger] fitting(s, room)[i] == shown(s[i]),
        fitting(s, room).len() < s.len() ==> encode_utf8(fitting(s, room)).len() + width(
            shown(s[fitting(s, room).len() as int]),
        ) > room,
    decreases s.len(),
{
    if s.len() != 0 && width(shown(s[0])) <= room {
        let left = (room - width(shown(s[0]))) as nat;
        let rest = fitting(s.drop_first(), left);
        lemma_fitting_is_prefix(s.drop_first(), left);
        let all = fitting(s, room);
        assert(all.drop_first() =~= rest);
        assert forall|i: int| 0 <= i < all.len() implies all[i] == shown(s[i]) by {
            if i > 0 {
                assert(all[i] == rest[i - 1]);
                assert(s.drop_first()[i - 1] == s[i]);
            }
        }
    }
}

// ---------------------------------------------------------------------------
// The state machine

/// The status once a reconciliation has begun.
pub open spec fn begun(s: StatusView, t: TriggerView) -> StatusView {
    StatusView {
        generation: (s.generation + 1) as u64,
        state: ConfigReconciliationState::Reconciling,
        operation: Some(t.operation),
        object_type: t.object_type,
        object_id: t.object_id,
        diagnostic: None,
    }
}

/// The status once an attempt has ended.
pub open spec fn settled(s: StatusView, failure: Option<text::Text>) -> StatusView {
    match failure {
        None => StatusView {
            state: ConfigReconciliationState::Converged,
            diagnostic: None,
            ..s
        },
        Some(reason) => StatusView {
            state: ConfigReconciliationState::Failed,
            diagnostic: Some(bounded(reason)),
            ..s
        },
    }
}

/// The failure that an outcome stands for.
pub open spec fn failure_of(r: Result<(), String>) -> Option<text::Text> {
    match r {
        Ok(_) => None,
        Err(reason) => Some(reason@),
    }
}

/// The record of the reconciliations so far.
pub struct ConfigReconciliation {
    current: ConfigReconciliationStatus,
}

impl View for ConfigReconciliation {
    type V = StatusView;

    closed spec fn view(&self) -> StatusView {
        self.current@
    }
}

impl Default for ConfigReconciliation {
    fn default() -> (r: Self)
        ensures
            r@ == idle(),
    {
        ConfigReconciliation { current: ConfigReconciliationStatus::default() }
    }
}

impl ConfigReconciliation {
    pub fn status(&self) -> (r: ConfigReconciliationStatus)
        ensures
            r@ == self@,
    {
        self.current.clone()
    }

    /// Begins the next generation, unless generations are exhausted.
    pub fn begin(&mut self, trigger: ConfigReconciliationTrigger) -> (r: Result<(), String>)
        ensures
            r is Ok <==> old(self)@.generation < u64::MAX,
            r is Ok ==> final(self)@ == begun(old(self)@, trigger@),
            r is Err ==> r->Err_0@ == "configuration reconciliation generation exhausted"@
                && final(self)@ == old(self)@,
    {
        if self.current.generation == u64::MAX {
            return Err(text::copy("configuration reconciliation generation exhausted"));
        }
        self.current = ConfigReconciliationStatus {
            generation: self.current.generation + 1,
            state: ConfigReconciliationState::Reconciling,
            operation: Some(trigger.operation),
            object_type: trigger.object_type,
            object_id: trigger.object_id,
            diagnostic: None,
        };
        Ok(())
    }

    /// Ends the generation under way with the outcome of applying it.
    pub fn settle(&mut self, outcome: &Result<(), String>) -> (r: ConfigReconciliationStatus)
        ensures
            final(self)@ == settled(old(self)@, failure_of(*outcome)),
            r@ == final(self)@,
    {
        match outcome {
            Ok(_) => {
                self.current.state = ConfigReconciliationState::Converged;
                self.current.diagnostic = None;
            },
            Err(reason) => {
                self.current.state = ConfigReconciliationState::Failed;
                self.current.diagnostic = Some(bounded_diagnostic(reason.as_str()));
            },
        }
        self.current.clone()
    }

    /// Runs `apply` as the next generation and records how it ended. `apply` is
    /// not run when generations are exhausted.
    pub fn reconcile<F: FnOnce() -> Result<(), String>>(
        &mut self,
        trigger: ConfigReconciliationTrigger,
        apply: F,
    ) -> (r: Result<(), String>)
        requires
            old(self)@.generation < u64::MAX ==> apply.requires(()),
        ensures
            old(self)@.generation < u64::MAX ==> {
                &&& apply.ensures((), r)
                &&& final(self)@ == settled(begun(old(self)@, trigger@), failure_of(r))
            },
            old(self)@.generation == u64::MAX ==> {
                &&& r is Err
                &&& r->Err_0@ == "configuration reconciliation generation exhausted"@
                &&& final(self)@ == old(self)@
            },
    {
        match self.begin(trigger) {
            Ok(_) => {},
            Err(reason) => {
                return Err(reason);
            },
        }
        let outcome = apply();
        let _ = self.settle(&outcome);
        outcome
    }

    /// As [`ConfigReconciliation::reconcile`], and hands the terminal status to
    /// `publish`, which is not run when generations are exhausted.
    pub fn reconcile_with<F, P>(
        &mut self,
        trigger: ConfigReconciliationTrigger,
        apply: F,
        publish: P,
    ) -> (r: Result<(), String>) where
        F: FnOnce() -> Result<(), String>,
        P: FnOnce(ConfigReconciliationStatus) -> (),

        requires
            old(self)@.generation < u64::MAX ==> apply.requires(()),
            old(self)@.generation < u64::MAX ==> forall|s: ConfigReconciliationStatus| #[trigger]
                publish.requires((s,)),
        ensures
            old(self)@.generation < u64::MAX ==> {
                &&& apply.ensures((), r)
                &&& final(self)@ == settled(begun(old(self)@, trigger@), failure_of(r))
                &&& exists|s: ConfigReconciliationStatus| #[trigger]
                    publish.ensures((s,), ()) && s@ == final(self)@
            },
            old(self)@.generation == u64::MAX ==> {
                &&& r is Err
                &&& r->Err_0@ == "configuration reconciliation generation exhausted"@
                &&& final(self)@ == old(self)@
            },
    {
        match self.begin(trigger) {
            Ok(_) => {},
            Err(reason) => {
                return Err(reason);
            },
        }
        let outcome = apply();
        let status = self.settle(&outcome);
        publish(status);
        outcome
    }
}

/// Every attempt takes the next generation, and leaves a terminal state that
/// names what set it off. A failure leaves a diagnostic, a success leaves none.
pub proof fn law_attempts_are_recorded(s: StatusView, t: TriggerView, failure: Option<text::Text>)
    requires
        s.generation < u64::MAX,
    ensures
        ({
            let after = settled(begun(s, t), failure);
            &&& after.generation == s.generation + 1
            &&& after.state == if failure is Some {
                ConfigReconciliationState::Failed
            } else {
                ConfigReconciliationState::Converged
            }
            &&& after.operation == Some(t.operation)
            &&& after.object_type == t.object_type
            &&& after.object_id == t.object_id
            &&& after.diagnostic is Some <==> failure is Some
        }),
{
}

} // verus!
