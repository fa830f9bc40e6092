//! Proof chains of the verifiable reasoning engine, the issues a
//! verification reports, and the entries of its audit log.
use vstd::prelude::*;
use crate::learner::{push_two_decimals, two_decimals};
use crate::logic::{decimal, push_decimal, show, steps_well_founded, verify_proof_steps, LogicalExpression, ProofStep};

verus! {

broadcast use vstd::string::group_string_axioms;

/// A complete proof chain. Its trust level is kept in hundredths.
pub struct ProofChain {
    pub id: String,
    pub steps: Vec<ProofStep>,
    pub conclusion: Option<LogicalExpression>,
    pub is_valid: bool,
    pub trust_level_hundredths: u32,
    pub generation_time_ms: u64,
}

/// A list of step numbers as `{:?}` writes a `Vec<usize>`.
pub open spec fn numbers_debug(v: Seq<usize>) -> Seq<char> {
    "["@ + joined_numbers(v) + "]"@
}

/// The numbers in decimal, separated by `", "`.
pub open spec fn joined_numbers(v: Seq<usize>) -> Seq<char>
    decreases v.len(),
{
    if v.len() == 0 {
        Seq::empty()
    } else if v.len() == 1 {
        decimal(v[0] as nat)
    } else {
        joined_numbers(v.drop_last()) + ", "@ + decimal(v.last() as nat)
    }
}

/// How a proof step is shown.
pub open spec fn step_text(s: ProofStep) -> Seq<char> {
    "[Step "@ + decimal(s.step_number as nat) + "] "@ + show(s.expression@) + "\n  Rule: "@ + s.rule_name@
        + "\n  From: "@ + numbers_debug(s.antecedents@) + "\n  Justification: "@ + s.justification@ + "\n\n"@
}

/// How the steps of a proof are shown, one after the other.
pub open spec fn steps_text(steps: Seq<ProofStep>) -> Seq<char>
    decreases steps.len(),
{
    if steps.len() == 0 {
        Seq::empty()
    } else {
        steps_text(steps.drop_last()) + step_text(steps.last())
    }
}

/// A boolean as `{}` writes it.
pub open spec fn bool_text(b: bool) -> Seq<char> {
    if b {
        "true"@
    } else {
        "false"@
    }
}

/// How a proof chain is shown.
pub open spec fn chain_text(c: ProofChain) -> Seq<char> {
    "Proof ID: "@ + c.id@ + "\nValid: "@ + bool_text(c.is_valid) + " | Trust Level: "@ + two_decimals(
        c.trust_level_hundredths as nat,
    ) + "\n\n"@ + steps_text(c.steps@) + match c.conclusion {
        Some(e) => "Conclusion: "@ + show(e@) + "\n"@,
        None => Seq::empty(),
    }
}

/// Appends a list of step numbers as `{:?}` writes it.
fn push_numbers_debug(out: &mut String, v: &Vec<usize>)
    ensures
        final(out)@ == old(out)@ + numbers_debug(v@),
{
    let ghost start = out@;
    out.append("[");
    let mut i: usize = 0;
    while i < v.len()
        invariant
            i <= v@.len(),
            out@ == start + "["@ + joined_numbers(v@.take(i as int)),
        decreases v.len() - i,
    {
        assert(v@.take(i + 1).drop_last() =~= v@.take(i as int));
        if i > 0 {
            out.append(", ");
        }
        push_decimal(out, v[i]);
        i += 1;
        assert(v@.take(i as int).last() == v@[i - 1]);
        if i == 1 {
            assert(v@.take(1)[0] == v@[0]);
        }
    }
    assert(v@.take(v@.len() as int) =~= v@);
    out.append("]");
    assert(out@ =~= start + numbers_debug(v@));
}

impl ProofChain {
    /// An empty, not yet valid proof chain.
    pub fn new(id: String) -> (c: Self)
        ensures
            c.id == id,
            c.steps@ == Seq::<ProofStep>::empty(),
            c.conclusion is None,
            !c.is_valid,
            c.trust_level_hundredths == 0,
            c.generation_time_ms == 0,
    {
        ProofChain {
            id,
            steps: Vec::new(),
            conclusion: None,
            is_valid: false,
            trust_level_hundredths: 0,
            generation_time_ms: 0,
        }
    }

    /// Appends a step to the proof.
    pub fn add_step(&mut self, step: ProofStep)
        ensures
            final(self).steps@ == old(self).steps@.push(step),
            final(self).id == old(self).id,
            final(self).conclusion == old(self).conclusion,
            final(self).is_valid == old(self).is_valid,
            final(self).trust_level_hundredths == old(self).trust_level_hundredths,
            final(self).generation_time_ms == old(self).generation_time_ms,
    {
        self.steps.push(step);
    }

    /// Whether the chain has steps and each step cites only earlier steps.
    pub fn verify(&self) -> (b: bool)
        ensures
            b == steps_well_founded(self.steps@),
    {
        verify_proof_steps(self.steps.as_slice())
    }

    /// The chain in human-readable form.
    pub fn to_display_string(&self) -> (s: String)
        ensures
            s@ == chain_text(*self),
    {
        let mut out = "Proof ID: ".to_owned();
        out.append(self.id.as_str());
        out.append("\nValid: ");
        if self.is_valid {
            out.append("true");
        } else {
            out.append("false");
        }
        out.append(" | Trust Level: ");
        push_two_decimals(&mut out, self.trust_level_hundredths);
        out.append("\n\n");
        let ghost head = out@;
        let mut i: usize = 0;
        while i < self.steps.len()
            invariant
                i <= self.steps@.len(),
                out@ == head + steps_text(self.steps@.take(i as int)),
            decreases self.steps.len() - i,
        {
            assert(self.steps@.take(i + 1).drop_last() =~= self.steps@.take(i as int));
            let step = &self.steps[i];
            let ghost before = out@;
            out.append("[Step ");
            push_decimal(&mut out, step.step_number);
            out.append("] ");
            let e = step.expression.to_string();
            out.append(e.as_str());
            out.append("\n  Rule: ");
            out.append(step.rule_name.as_str());
            out.append("\n  From: ");
            push_numbers_debug(&mut out, &step.antecedents);
            out.append("\n  Justification: ");
            out.append(step.justification.as_str());
            out.append("\n\n");
            assert(out@ =~= before + step_text(*step));
            i += 1;
        }
        assert(self.steps@.take(self.steps@.len() as int) =~= self.steps@);
        let ghost body = out@;
        match &self.conclusion {
            Some(c) => {
                out.append("Conclusion: ");
                let t = c.to_string();
                out.append(t.as_str());
                out.append("\n");
                assert(out@ =~= body + ("Conclusion: "@ + show(c@) + "\n"@));
            },
            None => {
                assert(out@ =~= body + Seq::<char>::empty());
            },
        }
        out
    }
}

/// The kinds of issue a verification finds.
#[derive(Debug, Clone, Copy, PartialEq, Eq, Structural)]
pub enum IssueType {
    Inconsistency,
    UnsupportedAssumption,
    InvalidInference,
    CircularReasoning,
    MissingJustification,
    TamperingDetected,
}

/// An issue found during verification; its severity is in hundredths.
pub struct VerificationIssue {
    pub issue_type: IssueType,
    pub description: String,
    pub severity_hundredths: u32,
    pub step_number: Option<usize>,
}

/// The outcome of a verification; its trust level is in hundredths.
pub struct VerificationResult {
    pub is_valid: bool,
    pub proof_chain: Option<ProofChain>,
    pub trust_level_hundredths: u32,
    pub issues: Vec<VerificationIssue>,
    pub timestamp: u64,
}

/// The kinds of audited action.
#[derive(Debug, Clone, Copy, PartialEq, Eq, Structural)]
pub enum AuditAction {
    FactAdded,
    RuleAdded,
    ReasoningPerformed,
    QueryExecuted,
    VerificationPerformed,
    AuditLogAccessed,
}

/// An entry of the audit log, chained to the one before by its hash.
pub struct AuditEntry {
    pub id: String,
    pub action: AuditAction,
    pub details: String,
    pub timestamp: u64,
    pub prev_hash: String,
    pub hash: String,
}

} // verus!
