//! The two database functions behind the materialised `inst_relate.anc`
//! column (`fn::refno_u64` and `fn::anc_u64`): splitting their built-in
//! definitions, reading a probe's answer, and the order of probes and
//! definitions that installs whatever is missing without ever overwriting an
//! existing definition.

use vstd::prelude::*;
use vstd::string::StrSliceExecFns;
use crate::text::{occurs, occurs_at, chars_of, find_first, contains_text};

verus! {

/// The statement that starts the built-in definition of `fn::anc_u64`.
pub const ANC_U64_DEFINE: &'static str = "DEFINE FUNCTION OVERWRITE fn::anc_u64";

/// The text a probe error holds when the probed function is not defined.
pub const NOT_DEFINED_MARK: &'static str = "does not exist";

/// Splits the built-in compatibility script into the definition of
/// `fn::refno_u64` (everything before the first `ANC_U64_DEFINE`) and the
/// definition of `fn::anc_u64` (from there to the end).
pub fn inst_meta_definitions<'a>(sql: &'a str) -> (r: (&'a str, &'a str))
    requires
        occurs(sql@, ANC_U64_DEFINE@),
    ensures
        r.0@ + r.1@ == sql@,
        occurs_at(sql@, ANC_U64_DEFINE@, r.0@.len() as int),
        forall|j: int| 0 <= j < r.0@.len() ==> !occurs_at(sql@, ANC_U64_DEFINE@, j),
{
    let hay = chars_of(sql);
    let needle = chars_of(ANC_U64_DEFINE);
    let at = find_first(&hay, &needle);
    let at = match at {
        Some(i) => i,
        None => {
            proof {
                assert(false);
            }
            0
        },
    };
    let len = sql.unicode_len();
    let head = sql.substring_char(0, at);
    let tail = sql.substring_char(at, len);
    assert(head@ + tail@ =~= sql@);
    (head, tail)
}

/// What a probe call of a function says: `Some(true)` when the call went
/// through, `Some(false)` when it failed because the function is not
/// defined, `None` when it failed for another reason (that error is the
/// caller's to report).
pub fn probe_says_defined(error_text: Option<&str>) -> (r: Option<bool>)
    ensures
        error_text is None ==> r == Some(true),
        error_text matches Some(t) ==> (occurs(t@, NOT_DEFINED_MARK@) ==> r == Some(false)) && (!occurs(
            t@,
            NOT_DEFINED_MARK@,
        ) ==> r is None),
{
    match error_text {
        None => Some(true),
        Some(t) => {
            if contains_text(t, NOT_DEFINED_MARK) {
                Some(false)
            } else {
                None
            }
        },
    }
}

/// One of the two compatibility functions.
#[derive(Debug, Clone, Copy, PartialEq, Eq, Structural)]
pub enum InstMetaFunction {
    RefnoU64,
    AncU64,
}

/// What the caller does next while the functions are ensured.
#[derive(Debug, Clone, Copy, PartialEq, Eq, Structural)]
pub enum EnsureAction {
    /// Call the function's probe and report whether it is defined.
    Probe(InstMetaFunction),
    /// Send the function's built-in definition and report when it is accepted.
    Define(InstMetaFunction),
    /// Both functions are defined; `true` when this run defined one of them.
    Installed(bool),
    /// The final re-check still finds these functions undefined.
    StillMissing { refno_u64: bool, anc_u64: bool },
}

/// The step the ensure run is at.
#[derive(Debug, Clone, Copy, PartialEq, Eq, Structural)]
pub enum EnsurePhase {
    ProbeRefno,
    DefineRefno,
    ProbeAnc,
    DefineAnc,
    RecheckRefno,
    RecheckAnc,
    Finished,
}

/// One step of a run on the answer of a probe: the next phase, whether a
/// definition has been sent, whether the re-check found `fn::refno_u64`
/// undefined, and the next action. The first probe of each function leads
/// to its definition when it is undefined and to the next probe otherwise;
/// the re-check probes only record what they find, and the last one ends the
/// run.
pub open spec fn after_probe(phase: EnsurePhase, installed: bool, refno_missing: bool, defined: bool) -> (
    EnsurePhase,
    bool,
    bool,
    EnsureAction,
) {
    match phase {
        EnsurePhase::ProbeRefno => if defined {
            (EnsurePhase::ProbeAnc, installed, refno_missing, EnsureAction::Probe(InstMetaFunction::AncU64))
        } else {
            (EnsurePhase::DefineRefno, installed, refno_missing, EnsureAction::Define(InstMetaFunction::RefnoU64))
        },
        EnsurePhase::ProbeAnc => if defined {
            (EnsurePhase::RecheckRefno, installed, refno_missing, EnsureAction::Probe(InstMetaFunction::RefnoU64))
        } else {
            (EnsurePhase::DefineAnc, installed, refno_missing, EnsureAction::Define(InstMetaFunction::AncU64))
        },
        EnsurePhase::RecheckRefno => (
            EnsurePhase::RecheckAnc,
            installed,
            !defined,
            EnsureAction::Probe(InstMetaFunction::AncU64),
        ),
        _ => (
            EnsurePhase::Finished,
            installed,
            refno_missing,
            if !refno_missing && defined {
                EnsureAction::Installed(installed)
            } else {
                EnsureAction::StillMissing { refno_u64: refno_missing, anc_u64: !defined }
            },
        ),
    }
}

/// One step of a run once a definition has been accepted: the run goes on
/// with the first probe of the other function, or with the re-check.
pub open spec fn after_definition(phase: EnsurePhase, refno_missing: bool) -> (EnsurePhase, bool, bool, EnsureAction) {
    if phase == EnsurePhase::DefineRefno {
        (EnsurePhase::ProbeAnc, true, refno_missing, EnsureAction::Probe(InstMetaFunction::AncU64))
    } else {
        (EnsurePhase::RecheckRefno, true, refno_missing, EnsureAction::Probe(InstMetaFunction::RefnoU64))
    }
}

/// The state of one ensure run.
pub struct InstMetaEnsure {
    phase: EnsurePhase,
    installed: bool,
    refno_missing: bool,
}

impl InstMetaEnsure {
    /// The step the run is at.
    pub closed spec fn phase(&self) -> EnsurePhase {
        self.phase
    }

    /// Whether this run has defined a function so far.
    pub closed spec fn has_installed(&self) -> bool {
        self.installed
    }

    /// Whether the re-check found `fn::refno_u64` undefined.
    pub closed spec fn refno_still_missing(&self) -> bool {
        self.refno_missing
    }

    /// Starts a run: the first step probes `fn::refno_u64`.
    pub fn start() -> (r: (Self, EnsureAction))
        ensures
            r.0.phase() == EnsurePhase::ProbeRefno,
            !r.0.has_installed(),
            !r.0.refno_still_missing(),
            r.1 == EnsureAction::Probe(InstMetaFunction::RefnoU64),
    {
        (
            InstMetaEnsure { phase: EnsurePhase::ProbeRefno, installed: false, refno_missing: false },
            EnsureAction::Probe(InstMetaFunction::RefnoU64),
        )
    }

    /// Takes the answer of the probe that the last action asked for. A
    /// function is defined only when its first probe found it undefined; the
    /// re-check probes never lead to a definition.
    pub fn on_probe(&mut self, defined: bool) -> (r: EnsureAction)
        requires
            old(self).phase() == EnsurePhase::ProbeRefno || old(self).phase() == EnsurePhase::ProbeAnc
                || old(self).phase() == EnsurePhase::RecheckRefno || old(self).phase()
                == EnsurePhase::RecheckAnc,
        ensures
            (final(self).phase(), final(self).has_installed(), final(self).refno_still_missing(), r)
                == after_probe(
                old(self).phase(),
                old(self).has_installed(),
                old(self).refno_still_missing(),
                defined,
            ),
    {
        match self.phase {
            EnsurePhase::ProbeRefno => {
                if defined {
                    self.phase = EnsurePhase::ProbeAnc;
                    EnsureAction::Probe(InstMetaFunction::AncU64)
                } else {
                    self.phase = EnsurePhase::DefineRefno;
                    EnsureAction::Define(InstMetaFunction::RefnoU64)
                }
            },
            EnsurePhase::ProbeAnc => {
                if defined {
                    self.phase = EnsurePhase::RecheckRefno;
                    EnsureAction::Probe(InstMetaFunction::RefnoU64)
                } else {
                    self.phase = EnsurePhase::DefineAnc;
                    EnsureAction::Define(InstMetaFunction::AncU64)
                }
            },
            EnsurePhase::RecheckRefno => {
                self.refno_missing = !defined;
                self.phase = EnsurePhase::RecheckAnc;
                EnsureAction::Probe(InstMetaFunction::AncU64)
            },
            _ => {
                self.phase = EnsurePhase::Finished;
                if !self.refno_missing && defined {
                    EnsureAction::Installed(self.installed)
                } else {
                    EnsureAction::StillMissing { refno_u64: self.refno_missing, anc_u64: !defined }
                }
            },
        }
    }

    /// Takes the acceptance of the definition that the last action asked for.
    pub fn on_defined(&mut self) -> (r: EnsureAction)
        requires
            old(self).phase() == EnsurePhase::DefineRefno || old(self).phase() == EnsurePhase::DefineAnc,
        ensures
            (final(self).phase(), final(self).has_installed(), final(self).refno_still_missing(), r)
                == after_definition(old(self).phase(), old(self).refno_still_missing()),
    {
        self.installed = true;
        if self.phase == EnsurePhase::DefineRefno {
            self.phase = EnsurePhase::ProbeAnc;
            EnsureAction::Probe(InstMetaFunction::AncU64)
        } else {
            self.phase = EnsurePhase::RecheckRefno;
            EnsureAction::Probe(InstMetaFunction::RefnoU64)
        }
    }
}

/// Whether a database defines a function, given whether it defines
/// `fn::refno_u64` and `fn::anc_u64`.
pub open spec fn defines(db: (bool, bool), f: InstMetaFunction) -> bool {
    match f {
        InstMetaFunction::RefnoU64 => db.0,
        InstMetaFunction::AncU64 => db.1,
    }
}

/// The database after it has accepted the definition of `f`.
pub open spec fn with_definition(db: (bool, bool), f: InstMetaFunction) -> (bool, bool) {
    match f {
        InstMetaFunction::RefnoU64 => (true, db.1),
        InstMetaFunction::AncU64 => (db.0, true),
    }
}

/// A run against a database that answers every probe truthfully and keeps
/// every definition it is sent, from the given state and action, for at
/// most `steps` steps: the last action, the database afterwards and the
/// number of definitions sent.
pub open spec fn run_against(
    phase: EnsurePhase,
    installed: bool,
    refno_missing: bool,
    action: EnsureAction,
    db: (bool, bool),
    steps: nat,
) -> (EnsureAction, (bool, bool), nat)
    decreases steps,
{
    if steps == 0 {
        (action, db, 0)
    } else {
        match action {
            EnsureAction::Probe(f) => {
                let next = after_probe(phase, installed, refno_missing, defines(db, f));
                run_against(next.0, next.1, next.2, next.3, db, (steps - 1) as nat)
            },
            EnsureAction::Define(f) => {
                let next = after_definition(phase, refno_missing);
                let rest = run_against(next.0, next.1, next.2, next.3, with_definition(db, f), (steps - 1) as nat);
                (rest.0, rest.1, rest.2 + 1)
            },
            _ => (action, db, 0),
        }
    }
}

/// A whole run from `InstMetaEnsure::start` (six steps at most: two first
/// probes, two definitions, two re-check probes).
pub open spec fn ensure_run(db: (bool, bool)) -> (EnsureAction, (bool, bool), nat) {
    run_against(
        EnsurePhase::ProbeRefno,
        false,
        false,
        EnsureAction::Probe(InstMetaFunction::RefnoU64),
        db,
        6,
    )
}

/// Against a database that keeps what it is sent, a run defines exactly the
/// functions that are missing (an existing definition is never sent again),
/// ends with both defined and reports whether it defined any; a second run
/// then defines nothing and reports so.
pub proof fn lemma_ensure_installs_missing_and_is_idempotent(db: (bool, bool))
    ensures
        ensure_run(db).0 == EnsureAction::Installed(!(db.0 && db.1)),
        ensure_run(db).1 == (true, true),
        ensure_run(db).2 == (if db.0 { 0nat } else { 1nat }) + (if db.1 { 0nat } else { 1nat }),
        ensure_run(ensure_run(db).1).0 == EnsureAction::Installed(false),
        ensure_run(ensure_run(db).1).2 == 0,
{
    reveal_with_fuel(run_against, 7);
}

/// The re-check decides the outcome, whatever the database does in between:
/// after the re-check probes of `fn::refno_u64` and then `fn::anc_u64` the run
/// is finished, and it reports `Installed` (with whether it defined
/// something) exactly when both probes found their function, and otherwise
/// `StillMissing` with each function whose probe did not find it.
pub proof fn lemma_recheck_decides(installed: bool, refno_missing: bool, refno_found: bool, anc_found: bool)
    ensures
        ({
            let first = after_probe(EnsurePhase::RecheckRefno, installed, refno_missing, refno_found);
            let last = after_probe(first.0, first.1, first.2, anc_found);
            &&& first.3 == EnsureAction::Probe(InstMetaFunction::AncU64)
            &&& last.0 == EnsurePhase::Finished
            &&& last.3 == if refno_found && anc_found {
                EnsureAction::Installed(installed)
            } else {
                EnsureAction::StillMissing { refno_u64: !refno_found, anc_u64: !anc_found }
            }
        }),
{
}

/// A run reports success only from its last re-check, and only when that
/// probe found `fn::anc_u64` and the one before it found `fn::refno_u64`;
/// no step on a probe answer reports success otherwise.
pub proof fn lemma_installed_only_after_both_found(
    phase: EnsurePhase,
    installed: bool,
    refno_missing: bool,
    defined: bool,
)
    requires
        phase == EnsurePhase::ProbeRefno || phase == EnsurePhase::ProbeAnc || phase == EnsurePhase::RecheckRefno
            || phase == EnsurePhase::RecheckAnc,
    ensures
        after_probe(phase, installed, refno_missing, defined).3 is Installed ==> phase == EnsurePhase::RecheckAnc
            && defined && !refno_missing,
        phase == EnsurePhase::RecheckAnc && !defined ==> after_probe(phase, installed, refno_missing, defined).3
            == (EnsureAction::StillMissing { refno_u64: refno_missing, anc_u64: true }),
{
}

/// Text of the error when the re-check still finds functions undefined.
pub open spec fn still_missing_text(refno_u64: bool, anc_u64: bool) -> Seq<char> {
    "SurrealDB 内置兼容函数复检失败：当前 database 缺少 "@ + if refno_u64 && anc_u64 {
        "fn::refno_u64, fn::anc_u64"@
    } else if refno_u64 {
        "fn::refno_u64"@
    } else {
        "fn::anc_u64"@
    }
}

/// The error text for a re-check that still finds functions undefined.
pub fn still_missing_message(refno_u64: bool, anc_u64: bool) -> (r: String)
    requires
        refno_u64 || anc_u64,
    ensures
        r@ == still_missing_text(refno_u64, anc_u64),
{
    let mut s = String::from_str("SurrealDB 内置兼容函数复检失败：当前 database 缺少 ");
    if refno_u64 && anc_u64 {
        s.append("fn::refno_u64, fn::anc_u64");
    } else if refno_u64 {
        s.append("fn::refno_u64");
    } else {
        s.append("fn::anc_u64");
    }
    s
}

} // verus!
