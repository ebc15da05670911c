use vstd::prelude::*;

use crate::actions::{has_canceling, Action, ActionList};
use crate::error::RuntimeError;
use crate::instruction::{
    instr_jumps_ok, Clear, Envelope, Instruction, Location, MatchType, Modifier, SetAction, Sieve,
    Test, Value, VariableType,
};
use crate::lexer::clone_bytes;
use crate::strutil::{
    bytes_eq, decimal_bytes, lower_of, lowercase_bytes, to_decimal_bytes_u64, truncate_utf8,
    upper_of, uppercase_bytes,
};

verus! {

/// A runtime value: text, or a number kept exact.
#[derive(Debug, PartialEq, Eq)]
pub enum Variable {
    Text(Vec<u8>),
    Integer(i64),
}

/// The bytes a runtime value reads as.
pub open spec fn variable_bytes(v: Variable) -> Seq<u8> {
    match v {
        Variable::Text(t) => t@,
        Variable::Integer(i) => if i >= 0 {
            decimal_bytes(i as nat)
        } else {
            seq![45u8] + decimal_bytes((-(i as int)) as nat)
        },
    }
}

impl Variable {
    /// Renders the value as text.
    pub fn to_bytes(&self) -> (r: Vec<u8>)
        ensures
            r@ == variable_bytes(*self),
    {
        match self {
            Variable::Text(t) => clone_bytes(t),
            Variable::Integer(i) => {
                let n = *i;
                if n >= 0 {
                    to_decimal_bytes_u64(n as u64)
                } else {
                    let mag: u64 = ((-(n + 1)) as u64) + 1;
                    let mut out: Vec<u8> = Vec::new();
                    out.push(45);
                    let mut digits = to_decimal_bytes_u64(mag);
                    out.append(&mut digits);
                    proof {
                        assert(out@ =~= seq![45u8] + decimal_bytes((-(n as int)) as nat));
                    }
                    out
                }
            },
        }
    }
}

/// One MIME part: its headers, its body, and its direct children (indices
/// into the message's part table, each greater than the part's own).
pub struct Part {
    pub headers: Vec<(Vec<u8>, Vec<u8>)>,
    pub body: Vec<u8>,
    pub subparts: Vec<usize>,
}

/// The read-only view of the message under evaluation; part 0 is the root.
pub struct Message {
    pub parts: Vec<Part>,
    pub size: usize,
}

/// A message holds at least its root part.
pub open spec fn message_wf(m: Message) -> bool {
    m.parts@.len() >= 1
}

/// What the runtime hands the host between instructions.
#[derive(Debug)]
pub enum Event {
    IncludeScript { name: Vec<u8>, location: Location, once: bool, optional: bool },
    SetEnvelope { envelope: Envelope, value: Vec<u8> },
    Finished { actions: Vec<Action>, implicit_keep: bool },
}

/// A live `foreverypart` iterator: the parts still to visit, in document
/// order.
pub struct PartIter {
    pub parts: Vec<usize>,
    pub idx: usize,
}

/// One execution of a compiled program against one message.
pub struct Context<'x> {
    pub program: &'x Sieve,
    pub message: &'x Message,
    pub pc: usize,
    pub last_test: bool,
    pub vars_local: Vec<Variable>,
    pub vars_global: Vec<(Vec<u8>, Variable)>,
    pub vars_match: Vec<Variable>,
    pub match_mask: u64,
    pub envelope: Vec<(Envelope, Variable)>,
    pub environment: Vec<(Vec<u8>, Variable)>,
    pub part_stack: Vec<PartIter>,
    pub actions: ActionList,
    pub queued_event: Option<Event>,
    pub cpu: u64,
    pub cpu_limit: u64,
    pub max_variable_size: usize,
}

impl<'x> Context<'x> {
    pub open spec fn wf(self) -> bool {
        &&& self.program.wf()
        &&& message_wf(*self.message)
        &&& self.pc <= self.program.instructions@.len()
        &&& self.cpu <= self.cpu_limit
        &&& self.vars_match@.len() == 63
        &&& self.vars_local@.len() == self.program.num_vars
        &&& match self.queued_event {
            Some(e) => e is SetEnvelope,
            None => true,
        }
    }

    /// Builds a fresh execution over a compiled program and a message.
    pub fn new(program: &'x Sieve, message: &'x Message) -> (r: Context<'x>)
        requires
            program.wf(),
            message_wf(*message),
        ensures
            r.wf(),
            r.program == program,
            r.message == message,
            r.actions.actions@.len() == 0,
            r.pc == 0,
            r.cpu == 0,
            r.cpu_limit == 1048576,
            r.max_variable_size == 4096,
            r.last_test == false,
            r.match_mask == 0,
            r.queued_event is None,
            r.vars_global@.len() == 0,
            r.envelope@.len() == 0,
            r.environment@.len() == 0,
            r.part_stack@.len() == 0,
            forall|i: int|
                0 <= i < r.vars_local@.len() ==> variable_bytes(#[trigger] r.vars_local@[i])
                    == Seq::<u8>::empty(),
            forall|i: int|
                0 <= i < r.vars_match@.len() ==> variable_bytes(#[trigger] r.vars_match@[i])
                    == Seq::<u8>::empty(),
    {
        let mut vars_local: Vec<Variable> = Vec::new();
        let mut i: usize = 0;
        while i < program.num_vars
            invariant
                vars_local@.len() == i,
                i <= program.num_vars,
                forall|k: int|
                    0 <= k < i ==> variable_bytes(#[trigger] vars_local@[k]) == Seq::<u8>::empty(),
            decreases program.num_vars - i,
        {
            vars_local.push(Variable::Text(Vec::new()));
            i += 1;
        }
        let mut vars_match: Vec<Variable> = Vec::new();
        let mut j: usize = 0;
        while j < 63
            invariant
                vars_match@.len() == j,
                j <= 63,
                forall|k: int|
                    0 <= k < j ==> variable_bytes(#[trigger] vars_match@[k]) == Seq::<u8>::empty(),
            decreases 63 - j,
        {
            vars_match.push(Variable::Text(Vec::new()));
            j += 1;
        }
        Context {
            program,
            message,
            pc: 0,
            last_test: false,
            vars_local,
            vars_global: Vec::new(),
            vars_match,
            match_mask: 0,
            envelope: Vec::new(),
            environment: Vec::new(),
            part_stack: Vec::new(),
            actions: ActionList::new(),
            queued_event: None,
            cpu: 0,
            cpu_limit: 1048576,
            max_variable_size: 4096,
        }
    }

    /// Replaces the instruction budget, clamping the count already spent.
    pub fn with_cpu_limit(self, limit: u64) -> (r: Context<'x>)
        requires
            self.wf(),
        ensures
            r.wf(),
            r.cpu_limit == limit,
            r.cpu == (if self.cpu > limit {
                limit
            } else {
                self.cpu
            }),
            r == (Context { cpu: r.cpu, cpu_limit: limit, ..self }),
    {
        let cpu = if self.cpu > limit {
            limit
        } else {
            self.cpu
        };
        Context { cpu, cpu_limit: limit, ..self }
    }

    /// Replaces the byte budget a stored variable may grow to.
    pub fn with_max_variable_size(self, max: usize) -> (r: Context<'x>)
        requires
            self.wf(),
        ensures
            r.wf(),
            r == (Context { max_variable_size: max, ..self }),
    {
        Context { max_variable_size: max, ..self }
    }

    /// Hands the runtime an envelope field before the run.
    pub fn with_envelope(self, envelope: Envelope, value: Vec<u8>) -> (r: Context<'x>)
        requires
            self.wf(),
        ensures
            r.wf(),
            r.envelope@ == self.envelope@.push((envelope, Variable::Text(value))),
            r == (Context { envelope: r.envelope, ..self }),
    {
        let mut e = self.envelope;
        e.push((envelope, Variable::Text(value)));
        Context { envelope: e, ..self }
    }

    /// Hands the runtime an environment item before the run; the
    /// `environment` test and `${...}` reads consult these.
    pub fn with_environment(self, name: Vec<u8>, value: Vec<u8>) -> (r: Context<'x>)
        requires
            self.wf(),
        ensures
            r.wf(),
            r.environment@ == self.environment@.push((name, Variable::Text(value))),
            r == (Context { environment: r.environment, ..self }),
    {
        let mut e = self.environment;
        e.push((name, Variable::Text(value)));
        Context { environment: e, ..self }
    }

    /// The part the program is looking at: the one the innermost part
    /// iterator stands on, or the message root.
    fn cur_part(&self) -> (r: usize)
        requires
            self.wf(),
        ensures
            r < self.message.parts@.len(),
            r == self.cur_part_spec(),
    {
        let n = self.part_stack.len();
        if n > 0 {
            let it = &self.part_stack[n - 1];
            if it.idx > 0 && it.idx <= it.parts.len() {
                let p = it.parts[it.idx - 1];
                if p < self.message.parts.len() {
                    return p;
                }
            }
        }
        0
    }

    /// The descendants of a part in document order. The visit list never
    /// names a part twice, and every entry is a real part of the message.
    fn collect_descendants(&self, p: usize, visited: &mut Vec<bool>, out: &mut Vec<usize>)
        requires
            self.wf(),
            p < self.message.parts@.len(),
            old(visited)@.len() == self.message.parts@.len(),
            collected_wf(old(out)@, old(visited)@),
        ensures
            final(visited)@.len() == old(visited)@.len(),
            old(out)@.len() <= final(out)@.len(),
            final(out)@.take(old(out)@.len() as int) == old(out)@,
            collected_wf(final(out)@, final(visited)@),
        decreases self.message.parts@.len() - p,
    {
        let subparts = &self.message.parts[p].subparts;
        let mut i: usize = 0;
        while i < subparts.len()
            invariant
                self.wf(),
                p < self.message.parts@.len(),
                visited@.len() == self.message.parts@.len(),
                subparts == &self.message.parts@[p as int].subparts,
                i <= subparts@.len(),
                old(out)@.len() <= out@.len(),
                out@.take(old(out)@.len() as int) == old(out)@,
                collected_wf(out@, visited@),
            decreases subparts@.len() - i,
        {
            let c = subparts[i];
            // document order means a child sits after its parent
            if c > p && c < self.message.parts.len() && !visited[c] {
                let ghost v0 = visited@;
                let ghost out_before = out@;
                visited[c] = true;
                out.push(c);
                proof {
                    assert(out@ =~= out_before.push(c));
                    assert forall|a: int, b: int|
                        0 <= a < b < out@.len() implies #[trigger] out@[a] != #[trigger] out@[b] by {
                        if b < out@.len() - 1 {
                            assert(out_before[a] != out_before[b]);
                        } else {
                            assert(out@[b] == c);
                            assert(v0[out_before[a] as int]);
                            assert(!v0[c as int]);
                        }
                    }
                    assert forall|j: int| 0 <= j < out@.len() implies (#[trigger] out@[j])
                        < visited@.len() && visited@[out@[j] as int] by {
                        if j < out@.len() - 1 {
                            assert(v0[out_before[j] as int]);
                        }
                    }
                    let k = old(out)@.len() as int;
                    assert(out_before.take(k) == old(out)@);
                    assert forall|j: int| 0 <= j < k implies out@.take(k)[j] == old(out)@[j] by {
                        assert(out@[j] == out_before[j]);
                        assert(out_before.take(k)[j] == out_before[j]);
                    }
                    assert(out@.take(k) =~= old(out)@);
                }
                let ghost mid = out@;
                self.collect_descendants(c, visited, out);
                proof {
                    let k = old(out)@.len() as int;
                    assert(out@.take(mid.len() as int) == mid);
                    assert forall|j: int| 0 <= j < k implies out@.take(k)[j] == old(out)@[j] by {
                        assert(out@.take(mid.len() as int)[j] == mid[j]);
                        assert(out@[j] == mid[j]);
                        assert(mid.take(k)[j] == mid[j]);
                    }
                    assert(out@.take(k) =~= old(out)@);
                }
            }
            i += 1;
        }
    }

    /// Starts a `foreverypart` iteration over the current part's subtree.
    /// The visit list names each part of the message at most once, so the
    /// loop ends after one visit per part.
    fn push_part_iter(&mut self)
        requires
            old(self).wf(),
        ensures
            final(self).wf(),
            unchanged_core(*old(self), *final(self)),
            final(self).pc == old(self).pc,
            final(self).cpu == old(self).cpu,
            final(self).actions == old(self).actions,
            final(self).queued_event == old(self).queued_event,
            final(self).part_stack@.len() == old(self).part_stack@.len() + 1,
            part_iter_wf(final(self).part_stack@.last(), *old(self).message),
    {
        let p = self.cur_part();
        let mut visited: Vec<bool> = Vec::new();
        let n = self.message.parts.len();
        let mut i: usize = 0;
        while i < n
            invariant
                visited@.len() == i,
                i <= n,
                forall|j: int| 0 <= j < i ==> !visited@[j],
            decreases n - i,
        {
            visited.push(false);
            i += 1;
        }
        let mut parts: Vec<usize> = Vec::new();
        self.collect_descendants(p, &mut visited, &mut parts);
        self.part_stack.push(PartIter { parts, idx: 0 });
    }
}

/// A part iterator that visits each part of the message at most once.
pub open spec fn part_iter_wf(it: PartIter, m: Message) -> bool {
    &&& forall|a: int, b: int|
        0 <= a < b < it.parts@.len() ==> #[trigger] it.parts@[a] != #[trigger] it.parts@[b]
    &&& forall|i: int| 0 <= i < it.parts@.len() ==> (#[trigger] it.parts@[i]) < m.parts@.len()
}

/// A well-formed visit list: entries are distinct (their `visited` marks are
/// set, and a part is only listed when its mark was still clear) and within
/// the message.
pub open spec fn collected_wf(out: Seq<usize>, visited: Seq<bool>) -> bool {
    &&& forall|a: int, b: int| 0 <= a < b < out.len() ==> #[trigger] out[a] != #[trigger] out[b]
    &&& forall|i: int|
        0 <= i < out.len() ==> (#[trigger] out[i]) < visited.len() && visited[out[i] as int]
}

/// What dispatching one instruction never changes.
pub open spec fn unchanged_core(a: Context<'_>, b: Context<'_>) -> bool {
    &&& b.program == a.program
    &&& b.message == a.message
    &&& b.cpu_limit == a.cpu_limit
    &&& b.max_variable_size == a.max_variable_size
    &&& b.environment == a.environment
}


/// ASCII case folding of one byte.
pub open spec fn fold_spec(b: u8) -> u8 {
    if 65 <= b <= 90 {
        (b + 32) as u8
    } else {
        b
    }
}

/// The bytes with ASCII letters folded to lower case.
pub open spec fn fold_seq(s: Seq<u8>) -> Seq<u8> {
    Seq::new(s.len(), |i: int| fold_spec(s[i]))
}

fn fold_b(b: u8) -> (r: u8)
    ensures
        r == fold_spec(b),
{
    if b >= 65 && b <= 90 {
        b + 32
    } else {
        b
    }
}

/// The value stored under a name, first match by content, from position
/// `i` on.
pub open spec fn global_lookup_from(s: Seq<(Vec<u8>, Variable)>, name: Seq<u8>, i: int) -> Option<
    Variable,
>
    decreases s.len() - i,
{
    if i < 0 || i >= s.len() {
        None
    } else if s[i].0@ == name {
        Some(s[i].1)
    } else {
        global_lookup_from(s, name, i + 1)
    }
}

/// The value stored under a name, first match by content.
pub open spec fn global_lookup(s: Seq<(Vec<u8>, Variable)>, name: Seq<u8>) -> Option<Variable> {
    global_lookup_from(s, name, 0)
}

/// The value mirrored for an envelope field, first match, from position `i`.
pub open spec fn envelope_lookup_from(s: Seq<(Envelope, Variable)>, env: Envelope, i: int) -> Option<
    Variable,
>
    decreases s.len() - i,
{
    if i < 0 || i >= s.len() {
        None
    } else if s[i].0 == env {
        Some(s[i].1)
    } else {
        envelope_lookup_from(s, env, i + 1)
    }
}

/// The value mirrored for an envelope field, first match.
pub open spec fn envelope_lookup(s: Seq<(Envelope, Variable)>, env: Envelope) -> Option<Variable> {
    envelope_lookup_from(s, env, 0)
}

/// A lookup passes over a prefix with no matching key.
proof fn lemma_global_lookup_skip(s: Seq<(Vec<u8>, Variable)>, name: Seq<u8>, i: int)
    requires
        0 <= i <= s.len(),
        forall|j: int| 0 <= j < i ==> (#[trigger] s[j]).0@ != name,
    ensures
        global_lookup_from(s, name, 0) == global_lookup_from(s, name, i),
    decreases i,
{
    if i > 0 {
        lemma_global_lookup_skip(s, name, i - 1);
    }
}

/// Replacing one value under an unrelated key leaves a lookup unchanged.
proof fn lemma_global_lookup_other(
    s: Seq<(Vec<u8>, Variable)>,
    t: Seq<(Vec<u8>, Variable)>,
    i: int,
    name: Seq<u8>,
    j: int,
)
    requires
        0 <= i < s.len(),
        t.len() == s.len(),
        forall|k: int| 0 <= k < s.len() && k != i ==> #[trigger] t[k] == s[k],
        t[i].0@ == s[i].0@,
        s[i].0@ != name,
        0 <= j,
    ensures
        global_lookup_from(t, name, j) == global_lookup_from(s, name, j),
    decreases s.len() - j,
{
    if j < s.len() {
        lemma_global_lookup_other(s, t, i, name, j + 1);
    }
}

/// Appending an entry changes only the lookup of its own key, and that only
/// when the key was absent.
proof fn lemma_global_lookup_push(
    s: Seq<(Vec<u8>, Variable)>,
    e: (Vec<u8>, Variable),
    name: Seq<u8>,
    j: int,
)
    requires
        0 <= j <= s.len(),
    ensures
        global_lookup_from(s.push(e), name, j) == (match global_lookup_from(s, name, j) {
            Some(v) => Some(v),
            None => if e.0@ == name {
                Some(e.1)
            } else {
                None
            },
        }),
    decreases s.len() - j,
{
    if j < s.len() {
        assert(s.push(e)[j] == s[j]);
        lemma_global_lookup_push(s, e, name, j + 1);
    } else {
        assert(s.push(e)[j] == e);
        assert(global_lookup_from(s.push(e), name, j + 1) == None::<Variable>);
        assert(global_lookup_from(s, name, j) == None::<Variable>);
    }
}

/// A lookup passes over a prefix with no matching envelope field.
proof fn lemma_envelope_lookup_skip(s: Seq<(Envelope, Variable)>, env: Envelope, i: int)
    requires
        0 <= i <= s.len(),
        forall|j: int| 0 <= j < i ==> (#[trigger] s[j]).0 != env,
    ensures
        envelope_lookup_from(s, env, 0) == envelope_lookup_from(s, env, i),
    decreases i,
{
    if i > 0 {
        lemma_envelope_lookup_skip(s, env, i - 1);
    }
}

/// Replacing one value under an unrelated envelope field leaves a lookup
/// unchanged.
proof fn lemma_envelope_lookup_other(
    s: Seq<(Envelope, Variable)>,
    t: Seq<(Envelope, Variable)>,
    i: int,
    env: Envelope,
    j: int,
)
    requires
        0 <= i < s.len(),
        t.len() == s.len(),
        forall|k: int| 0 <= k < s.len() && k != i ==> #[trigger] t[k] == s[k],
        t[i].0 == s[i].0,
        s[i].0 != env,
        0 <= j,
    ensures
        envelope_lookup_from(t, env, j) == envelope_lookup_from(s, env, j),
    decreases s.len() - j,
{
    if j < s.len() {
        lemma_envelope_lookup_other(s, t, i, env, j + 1);
    }
}

/// Appending an envelope entry changes only the lookup of its own field,
/// and that only when the field was absent.
proof fn lemma_envelope_lookup_push(
    s: Seq<(Envelope, Variable)>,
    e: (Envelope, Variable),
    env: Envelope,
    j: int,
)
    requires
        0 <= j <= s.len(),
    ensures
        envelope_lookup_from(s.push(e), env, j) == (match envelope_lookup_from(s, env, j) {
            Some(v) => Some(v),
            None => if e.0 == env {
                Some(e.1)
            } else {
                None
            },
        }),
    decreases s.len() - j,
{
    if j < s.len() {
        assert(s.push(e)[j] == s[j]);
        lemma_envelope_lookup_push(s, e, env, j + 1);
    } else {
        assert(s.push(e)[j] == e);
        assert(envelope_lookup_from(s.push(e), env, j + 1) == None::<Variable>);
        assert(envelope_lookup_from(s, env, j) == None::<Variable>);
    }
}

/// The bytes a variable reference reads as: the stored value, or empty when
/// nothing is stored or the source is one this runtime does not model.
pub open spec fn lookup_spec(c: Context<'_>, vt: VariableType) -> Seq<u8> {
    match vt {
        VariableType::Local(id) => if id < c.vars_local@.len() {
            variable_bytes(c.vars_local@[id as int])
        } else {
            Seq::empty()
        },
        VariableType::Match(n) => if n < 63 && (c.match_mask >> n as u64) & 1 == 1 {
            variable_bytes(c.vars_match@[n as int])
        } else {
            Seq::empty()
        },
        VariableType::Global(name) => match global_lookup(c.vars_global@, name@) {
            Some(v) => variable_bytes(v),
            None => Seq::empty(),
        },
        VariableType::Envelope(env) => match envelope_lookup(c.envelope@, env) {
            Some(v) => variable_bytes(v),
            None => Seq::empty(),
        },
        VariableType::Environment(name) => match global_lookup(c.environment@, name@) {
            Some(v) => variable_bytes(v),
            None => Seq::empty(),
        },
        _ => Seq::empty(),
    }
}

/// The text a compiled value evaluates to: literals stand for themselves,
/// references read the store, a list concatenates its parts.
pub open spec fn eval_spec(c: Context<'_>, v: Value) -> Seq<u8>
    decreases v, 0int,
{
    match v {
        Value::Text(t) => t@,
        Value::Number(n) => variable_bytes(Variable::Integer(n)),
        Value::Regex(e) => e@,
        Value::Variable(vt) => lookup_spec(c, vt),
        Value::List(items) => eval_list_spec(c, items@, 0),
    }
}

/// The concatenated texts of the list items from position `i` on.
pub open spec fn eval_list_spec(c: Context<'_>, vs: Seq<Value>, i: int) -> Seq<u8>
    decreases vs, vs.len() - i,
{
    if i < 0 || i >= vs.len() {
        Seq::empty()
    } else {
        eval_spec(c, vs[i]) + eval_list_spec(c, vs, i + 1)
    }
}

/// A text value cut at the size limit on a character boundary; numbers
/// render whole.
pub open spec fn truncated_bytes(v: Variable, max: int) -> Seq<u8> {
    match v {
        Variable::Text(t) => crate::strutil::boundary_cut(t@, max),
        Variable::Integer(_) => variable_bytes(v),
    }
}

/// What writing `bytes` under `name` does to the stores: the named slot
/// reads back as `bytes`, every other slot is untouched, and only an
/// envelope write queues its event.
pub open spec fn stored_ok(
    pre: Context<'_>,
    post: Context<'_>,
    name: VariableType,
    bytes: Seq<u8>,
) -> bool {
    match name {
        VariableType::Local(id) => {
            &&& post.vars_global == pre.vars_global
            &&& post.envelope == pre.envelope
            &&& post.queued_event == pre.queued_event
            &&& post.vars_local@.len() == pre.vars_local@.len()
            &&& if id < pre.vars_local@.len() {
                &&& (forall|k: int|
                    0 <= k < pre.vars_local@.len() && k != id ==> #[trigger] post.vars_local@[k]
                        == pre.vars_local@[k])
                &&& variable_bytes(post.vars_local@[id as int]) == bytes
            } else {
                post.vars_local == pre.vars_local
            }
        },
        VariableType::Global(nm) => {
            &&& post.vars_local == pre.vars_local
            &&& post.envelope == pre.envelope
            &&& post.queued_event == pre.queued_event
            &&& (match global_lookup(post.vars_global@, nm@) {
                Some(v) => variable_bytes(v) == bytes,
                None => false,
            })
            &&& (forall|other: Seq<u8>|
                other != nm@ ==> #[trigger] global_lookup(post.vars_global@, other)
                    == global_lookup(pre.vars_global@, other))
        },
        VariableType::Envelope(env) => {
            &&& post.vars_local == pre.vars_local
            &&& post.vars_global == pre.vars_global
            &&& (match envelope_lookup(post.envelope@, env) {
                Some(v) => variable_bytes(v) == bytes,
                None => false,
            })
            &&& (forall|e2: Envelope|
                e2 != env ==> #[trigger] envelope_lookup(post.envelope@, e2) == envelope_lookup(
                    pre.envelope@,
                    e2,
                ))
            &&& (post.queued_event matches Some(ev) && (ev matches Event::SetEnvelope {
                envelope: env2,
                value: v2,
            } && env2 == env && v2@ == bytes))
        },
        _ => {
            &&& post.vars_local == pre.vars_local
            &&& post.vars_global == pre.vars_global
            &&& post.envelope == pre.envelope
            &&& post.queued_event == pre.queued_event
        },
    }
}

/// Compares two byte strings, ASCII case-insensitively.
fn eq_fold(a: &Vec<u8>, b: &Vec<u8>) -> (r: bool)
    ensures
        r == (fold_seq(a@) == fold_seq(b@)),
{
    if a.len() != b.len() {
        proof {
            assert(fold_seq(a@).len() != fold_seq(b@).len());
        }
        return false;
    }
    let mut i: usize = 0;
    while i < a.len()
        invariant
            i <= a@.len(),
            a@.len() == b@.len(),
            forall|j: int| 0 <= j < i ==> fold_spec(a@[j]) == fold_spec(b@[j]),
        decreases a@.len() - i,
    {
        if fold_b(a[i]) != fold_b(b[i]) {
            proof {
                assert(fold_seq(a@)[i as int] != fold_seq(b@)[i as int]);
            }
            return false;
        }
        i += 1;
    }
    proof {
        assert(fold_seq(a@) =~= fold_seq(b@));
    }
    true
}

/// Whether `needle` occurs at position `k` of `hay`, compared with ASCII
/// letters folded.
pub open spec fn matches_at_fold(hay: Seq<u8>, needle: Seq<u8>, k: int) -> bool {
    &&& 0 <= k
    &&& k + needle.len() <= hay.len()
    &&& forall|j: int| 0 <= j < needle.len() ==> fold_spec(#[trigger] needle[j]) == fold_spec(
        hay[k + j],
    )
}

/// Whether `needle` occurs somewhere in `hay`, ASCII case-insensitively.
pub open spec fn contains_fold_spec(hay: Seq<u8>, needle: Seq<u8>) -> bool {
    exists|k: int| matches_at_fold(hay, needle, k)
}

fn contains_fold(hay: &Vec<u8>, needle: &Vec<u8>) -> (r: bool)
    ensures
        r == contains_fold_spec(hay@, needle@),
{
    if needle.len() > hay.len() {
        return false;
    }
    let hlen = hay.len();
    let end = hlen - needle.len();
    let mut i: usize = 0;
    while i <= end
        invariant
            needle@.len() <= hay@.len(),
            hlen == hay@.len(),
            end == hlen - needle@.len(),
            i <= end + 1,
            forall|k: int| 0 <= k < i ==> !matches_at_fold(hay@, needle@, k),
        decreases end + 1 - i,
    {
        let mut j: usize = 0;
        let mut ok = true;
        while j < needle.len() && ok
            invariant
                j <= needle@.len(),
                i <= end,
                hlen == hay@.len(),
                end == hlen - needle@.len(),
                ok ==> forall|j2: int|
                    0 <= j2 < j ==> fold_spec(#[trigger] needle@[j2]) == fold_spec(hay@[i + j2]),
                !ok ==> !matches_at_fold(hay@, needle@, i as int),
            decreases needle@.len() - j,
        {
            if fold_b(hay[i + j]) != fold_b(needle[j]) {
                ok = false;
            }
            j += 1;
        }
        if ok {
            proof {
                assert(matches_at_fold(hay@, needle@, i as int));
            }
            return true;
        }
        if i == end {
            proof {
                assert forall|k: int| !matches_at_fold(hay@, needle@, k) by {
                    if 0 <= k <= end {
                        assert(!matches_at_fold(hay@, needle@, k));
                    }
                }
            }
            return false;
        }
        i += 1;
    }
    proof {
        assert forall|k: int| !matches_at_fold(hay@, needle@, k) by {
            if 0 <= k && k + needle@.len() <= hay@.len() {
                assert(!matches_at_fold(hay@, needle@, k));
            }
        }
    }
    false
}

/// Matches a wildcard pattern against text, ASCII case-insensitively:
/// `*` takes any run (greedily), `?` one byte, a backslash escapes the
/// next pattern byte. On success the spans each wildcard took come back
/// in pattern order.
fn glob_captures(p: &Vec<u8>, s: &Vec<u8>, pi: usize, si: usize) -> (r: Option<
    Vec<(usize, usize)>,
>)
    requires
        pi <= p@.len(),
        si <= s@.len(),
    ensures
        r matches Some(v) ==> forall|i: int|
            0 <= i < v@.len() ==> si <= (#[trigger] v@[i]).0 <= v@[i].1 <= s@.len(),
    decreases p@.len() - pi + s@.len() - si,
{
    if pi == p.len() {
        if si == s.len() {
            return Some(Vec::new());
        }
        return None;
    }
    let c = p[pi];
    if c == 42 {
        // `*`: longest take first
        let plen = p.len();
        let mut k: usize = s.len();
        loop
            invariant
                si <= k <= s@.len(),
                pi < plen,
                plen == p@.len(),
                si <= s@.len(),
            decreases k,
        {
            match glob_captures(p, s, pi + 1, k) {
                Some(rest) => {
                    let mut out: Vec<(usize, usize)> = Vec::new();
                    out.push((si, k));
                    let mut rest = rest;
                    out.append(&mut rest);
                    return Some(out);
                },
                None => {},
            }
            if k == si {
                return None;
            }
            k -= 1;
        }
    } else if c == 63 {
        // `?`: exactly one byte
        if si < s.len() {
            match glob_captures(p, s, pi + 1, si + 1) {
                Some(rest) => {
                    let mut out: Vec<(usize, usize)> = Vec::new();
                    out.push((si, si + 1));
                    let mut rest = rest;
                    out.append(&mut rest);
                    Some(out)
                },
                None => None,
            }
        } else {
            None
        }
    } else if c == 92 && pi + 1 < p.len() {
        if si < s.len() && fold_b(s[si]) == fold_b(p[pi + 1]) {
            glob_captures(p, s, pi + 2, si + 1)
        } else {
            None
        }
    } else {
        if si < s.len() && fold_b(s[si]) == fold_b(c) {
            glob_captures(p, s, pi + 1, si + 1)
        } else {
            None
        }
    }
}

impl<'x> Context<'x> {
    /// The bytes a variable reference reads as; an unset or unsupported
    /// source reads as empty.
    fn lookup_bytes(&self, vt: &VariableType) -> (r: Vec<u8>)
        requires
            self.wf(),
        ensures
            r@ == lookup_spec(*self, *vt),
    {
        match vt {
            VariableType::Local(id) => {
                if *id < self.vars_local.len() {
                    self.vars_local[*id].to_bytes()
                } else {
                    Vec::new()
                }
            },
            VariableType::Match(n) => {
                if *n < 63 && (self.match_mask >> (*n as u64)) & 1 == 1 {
                    self.vars_match[*n].to_bytes()
                } else {
                    Vec::new()
                }
            },
            VariableType::Global(name) => {
                let mut i: usize = 0;
                while i < self.vars_global.len()
                    invariant
                        vt matches VariableType::Global(name2) && name2 == name,
                        i <= self.vars_global@.len(),
                        global_lookup(self.vars_global@, name@) == global_lookup_from(
                            self.vars_global@,
                            name@,
                            i as int,
                        ),
                    decreases self.vars_global@.len() - i,
                {
                    if bytes_eq(&self.vars_global[i].0, name) {
                        return self.vars_global[i].1.to_bytes();
                    }
                    i += 1;
                }
                Vec::new()
            },
            VariableType::Envelope(env) => {
                let mut i: usize = 0;
                while i < self.envelope.len()
                    invariant
                        vt matches VariableType::Envelope(env2) && env2 == env,
                        i <= self.envelope@.len(),
                        envelope_lookup(self.envelope@, *env) == envelope_lookup_from(
                            self.envelope@,
                            *env,
                            i as int,
                        ),
                    decreases self.envelope@.len() - i,
                {
                    if self.envelope[i].0 == *env {
                        return self.envelope[i].1.to_bytes();
                    }
                    i += 1;
                }
                Vec::new()
            },
            VariableType::Environment(name) => {
                let mut i: usize = 0;
                while i < self.environment.len()
                    invariant
                        vt matches VariableType::Environment(name2) && name2 == name,
                        i <= self.environment@.len(),
                        global_lookup(self.environment@, name@) == global_lookup_from(
                            self.environment@,
                            name@,
                            i as int,
                        ),
                    decreases self.environment@.len() - i,
                {
                    if bytes_eq(&self.environment[i].0, name) {
                        return self.environment[i].1.to_bytes();
                    }
                    i += 1;
                }
                Vec::new()
            },
            _ => Vec::new(),
        }
    }

    /// Evaluates a compiled value to text: literals stand for themselves,
    /// variable references read the store, and a list concatenates its
    /// parts.
    fn eval_value(&self, v: &Value) -> (r: Vec<u8>)
        requires
            self.wf(),
        ensures
            r@ == eval_spec(*self, *v),
        decreases *v, 0int,
    {
        match v {
            Value::Text(t) => clone_bytes(t),
            Value::Number(n) => Variable::Integer(*n).to_bytes(),
            Value::Regex(e) => clone_bytes(e),
            Value::Variable(vt) => self.lookup_bytes(vt),
            Value::List(items) => self.eval_list(items, 0),
        }
    }

    /// Concatenates the texts of the list items from position `i` on.
    fn eval_list(&self, items: &Vec<Value>, i: usize) -> (r: Vec<u8>)
        requires
            self.wf(),
            i <= items@.len(),
        ensures
            r@ == eval_list_spec(*self, items@, i as int),
        decreases *items, items@.len() - i,
    {
        if i >= items.len() {
            return Vec::new();
        }
        let mut out = self.eval_value(&items[i]);
        let mut rest = self.eval_list(items, i + 1);
        out.append(&mut rest);
        out
    }

    /// The values of every header of the current part whose (folded) name
    /// is in the list.
    fn header_values(&self, names: &Vec<Value>) -> (r: Vec<Vec<u8>>)
        requires
            self.wf(),
    {
        let part = self.cur_part();
        let headers = &self.message.parts[part].headers;
        let mut out: Vec<Vec<u8>> = Vec::new();
        let mut i: usize = 0;
        while i < names.len()
            invariant
                self.wf(),
                part < self.message.parts@.len(),
                headers == &self.message.parts@[part as int].headers,
                i <= names@.len(),
            decreases names@.len() - i,
        {
            let wanted = self.eval_value(&names[i]);
            let mut j: usize = 0;
            while j < headers.len()
                invariant
                    self.wf(),
                    part < self.message.parts@.len(),
                    headers == &self.message.parts@[part as int].headers,
                    j <= headers@.len(),
                decreases headers@.len() - j,
            {
                if eq_fold(&headers[j].0, &wanted) {
                    out.push(clone_bytes(&headers[j].1));
                }
                j += 1;
            }
            i += 1;
        }
        out
    }

    /// Whether a header of the current part has this name, compared with
    /// ASCII letters folded.
    fn header_exists(&self, name: &Vec<u8>) -> (r: bool)
        requires
            self.wf(),
        ensures
            ({
                let headers = self.message.parts@[self.cur_part_spec() as int].headers@;
                r == exists|j: int|
                    0 <= j < headers.len() && fold_seq((#[trigger] headers[j]).0@) == fold_seq(
                        name@,
                    )
            }),
    {
        let part = self.cur_part();
        let headers = &self.message.parts[part].headers;
        let mut j: usize = 0;
        while j < headers.len()
            invariant
                self.wf(),
                part == self.cur_part_spec(),
                part < self.message.parts@.len(),
                headers == &self.message.parts@[part as int].headers,
                j <= headers@.len(),
                forall|k: int|
                    0 <= k < j ==> fold_seq((#[trigger] headers@[k]).0@) != fold_seq(name@),
            decreases headers@.len() - j,
        {
            if eq_fold(&headers[j].0, name) {
                return true;
            }
            j += 1;
        }
        false
    }

    /// The part the program is looking at, as `cur_part` computes it.
    pub open spec fn cur_part_spec(self) -> usize {
        let n = self.part_stack@.len();
        if n > 0 {
            let it = self.part_stack@[n - 1];
            if it.idx > 0 && it.idx <= it.parts@.len() && it.parts@[it.idx - 1]
                < self.message.parts@.len() {
                it.parts@[it.idx - 1]
            } else {
                0
            }
        } else {
            0
        }
    }

    /// Stores the captures of a successful match into the match-variable
    /// slots the mask names.
    fn write_captures(&mut self, mask: u64, value: &Vec<u8>, spans: &Vec<(usize, usize)>)
        requires
            old(self).wf(),
            forall|i: int|
                0 <= i < spans@.len() ==> (#[trigger] spans@[i]).0 <= spans@[i].1 <= value@.len(),
        ensures
            final(self).wf(),
            unchanged_core(*old(self), *final(self)),
            final(self).pc == old(self).pc,
            final(self).cpu == old(self).cpu,
            final(self).actions == old(self).actions,
            final(self).queued_event == old(self).queued_event,
    {
        let mut n: usize = 0;
        while n < 63
            invariant
                self.wf(),
                unchanged_core(*old(self), *self),
                self.pc == old(self).pc,
                self.cpu == old(self).cpu,
                self.actions == old(self).actions,
                self.queued_event == old(self).queued_event,
                n <= 63,
                forall|i: int|
                    0 <= i < spans@.len() ==> (#[trigger] spans@[i]).0 <= spans@[i].1
                        <= value@.len(),
            decreases 63 - n,
        {
            if (mask >> (n as u64)) & 1 == 1 {
                let cap: Vec<u8> = if n == 0 {
                    clone_bytes(value)
                } else if n - 1 < spans.len() {
                    let (a, b) = spans[n - 1];
                    crate::strutil::copy_byte_range(value, a, b)
                } else {
                    Vec::new()
                };
                self.vars_match[n] = Variable::Text(cap);
            }
            n += 1;
        }
        self.match_mask = self.match_mask | mask;
    }

    /// Stores the capture groups of a successful regex match into the
    /// match-variable slots the mask names; slot 0 is the whole match.
    fn write_regex_captures(&mut self, mask: u64, value: &Vec<u8>, spans: &Vec<(usize, usize)>)
        requires
            old(self).wf(),
            forall|i: int|
                0 <= i < spans@.len() ==> (#[trigger] spans@[i]).0 <= spans@[i].1 <= value@.len(),
        ensures
            final(self).wf(),
            unchanged_core(*old(self), *final(self)),
            final(self).pc == old(self).pc,
            final(self).cpu == old(self).cpu,
            final(self).actions == old(self).actions,
            final(self).queued_event == old(self).queued_event,
    {
        let mut n: usize = 0;
        while n < 63
            invariant
                self.wf(),
                unchanged_core(*old(self), *self),
                self.pc == old(self).pc,
                self.cpu == old(self).cpu,
                self.actions == old(self).actions,
                self.queued_event == old(self).queued_event,
                n <= 63,
                forall|i: int|
                    0 <= i < spans@.len() ==> (#[trigger] spans@[i]).0 <= spans@[i].1
                        <= value@.len(),
            decreases 63 - n,
        {
            if (mask >> (n as u64)) & 1 == 1 {
                let cap: Vec<u8> = if n < spans.len() {
                    let (a, b) = spans[n];
                    crate::strutil::copy_byte_range(value, a, b)
                } else {
                    Vec::new()
                };
                self.vars_match[n] = Variable::Text(cap);
            }
            n += 1;
        }
        self.match_mask = self.match_mask | mask;
    }

    /// Evaluates a match of any value in `values` against any key, writing
    /// captures when a wildcard match succeeds.
    fn match_any(&mut self, mt: &MatchType, values: &Vec<Vec<u8>>, keys: &Vec<Value>) -> (r: bool)
        requires
            old(self).wf(),
        ensures
            final(self).wf(),
            unchanged_core(*old(self), *final(self)),
            final(self).pc == old(self).pc,
            final(self).cpu == old(self).cpu,
            final(self).actions == old(self).actions,
            final(self).queued_event == old(self).queued_event,
    {
        let mut i: usize = 0;
        while i < values.len()
            invariant
                self.wf(),
                unchanged_core(*old(self), *self),
                self.pc == old(self).pc,
                self.cpu == old(self).cpu,
                self.actions == old(self).actions,
                self.queued_event == old(self).queued_event,
                i <= values@.len(),
            decreases values@.len() - i,
        {
            let mut j: usize = 0;
            while j < keys.len()
                invariant
                    self.wf(),
                    unchanged_core(*old(self), *self),
                    self.pc == old(self).pc,
                    self.cpu == old(self).cpu,
                    self.actions == old(self).actions,
                    self.queued_event == old(self).queued_event,
                    i < values@.len(),
                    j <= keys@.len(),
                decreases keys@.len() - j,
            {
                let key = self.eval_value(&keys[j]);
                let value = &values[i];
                match mt {
                    MatchType::Is => {
                        if eq_fold(value, &key) {
                            return true;
                        }
                    },
                    MatchType::Contains => {
                        if contains_fold(value, &key) {
                            return true;
                        }
                    },
                    MatchType::Matches(mask) => {
                        match glob_captures(&key, value, 0, 0) {
                            Some(spans) => {
                                self.write_captures(*mask, value, &spans);
                                return true;
                            },
                            None => {},
                        }
                    },
                    MatchType::Regex(mask) => {
                        let spans = crate::regexutil::regex_find_captures(&key, value);
                        if spans.len() > 0 {
                            self.write_regex_captures(*mask, value, &spans);
                            return true;
                        }
                    },
                    _ => {},
                }
                j += 1;
            }
            i += 1;
        }
        false
    }

    /// Evaluates a test against the message.
    fn eval_test(&mut self, t: &Test) -> (r: bool)
        requires
            old(self).wf(),
        ensures
            final(self).wf(),
            unchanged_core(*old(self), *final(self)),
            final(self).pc == old(self).pc,
            final(self).cpu == old(self).cpu,
            final(self).actions == old(self).actions,
            final(self).queued_event == old(self).queued_event,
            t is True ==> r == true,
            t is False ==> r == false,
            t matches Test::Size(st) ==> r == (if st.over {
                old(self).message.size > st.limit
            } else {
                old(self).message.size < st.limit
            }),
    {
        match t {
            Test::True => true,
            Test::False => false,
            Test::Size(st) => {
                if st.over {
                    self.message.size > st.limit
                } else {
                    self.message.size < st.limit
                }
            },
            Test::Exists(names) => {
                let mut i: usize = 0;
                while i < names.len()
                    invariant
                        self.wf(),
                        unchanged_core(*old(self), *self),
                        self.pc == old(self).pc,
                        self.cpu == old(self).cpu,
                        self.actions == old(self).actions,
                        self.queued_event == old(self).queued_event,
                        t is Exists,
                        i <= names@.len(),
                    decreases names@.len() - i,
                {
                    let name = self.eval_value(&names[i]);
                    if !self.header_exists(&name) {
                        return false;
                    }
                    i += 1;
                }
                true
            },
            Test::Header(ht) => {
                let values = self.header_values(&ht.header_list);
                self.match_any(&ht.match_type, &values, &ht.key_list)
            },
            Test::StringTest(st) => {
                let mut values: Vec<Vec<u8>> = Vec::new();
                let mut i: usize = 0;
                while i < st.source.len()
                    invariant
                        self.wf(),
                        i <= st.source@.len(),
                    decreases st.source@.len() - i,
                {
                    values.push(self.eval_value(&st.source[i]));
                    i += 1;
                }
                self.match_any(&st.match_type, &values, &st.key_list)
            },
        }
    }
}


impl<'x> Context<'x> {
    /// Reads a variable, if it has a storage slot and was set.
    pub fn get_variable(&self, var_name: &VariableType) -> (r: Option<&Variable>)
        requires
            self.wf(),
        ensures
            var_name matches VariableType::Local(id) ==> (if *id < self.vars_local@.len() {
                r matches Some(v) && *v == self.vars_local@[*id as int]
            } else {
                r is None
            }),
            var_name matches VariableType::Global(name) ==> (match global_lookup(
                self.vars_global@,
                name@,
            ) {
                Some(stored) => r matches Some(v) && *v == stored,
                None => r is None,
            }),
            var_name matches VariableType::Envelope(env) ==> (match envelope_lookup(
                self.envelope@,
                *env,
            ) {
                Some(stored) => r matches Some(v) && *v == stored,
                None => r is None,
            }),
    {
        match var_name {
            VariableType::Local(id) => {
                if *id < self.vars_local.len() {
                    Some(&self.vars_local[*id])
                } else {
                    None
                }
            },
            VariableType::Global(name) => {
                let mut i: usize = 0;
                while i < self.vars_global.len()
                    invariant
                        var_name matches VariableType::Global(name2) && name2 == name,
                        i <= self.vars_global@.len(),
                        global_lookup(self.vars_global@, name@) == global_lookup_from(
                            self.vars_global@,
                            name@,
                            i as int,
                        ),
                    decreases self.vars_global@.len() - i,
                {
                    if bytes_eq(&self.vars_global[i].0, name) {
                        return Some(&self.vars_global[i].1);
                    }
                    i += 1;
                }
                None
            },
            VariableType::Envelope(env) => {
                let mut i: usize = 0;
                while i < self.envelope.len()
                    invariant
                        var_name matches VariableType::Envelope(env2) && env2 == env,
                        i <= self.envelope@.len(),
                        envelope_lookup(self.envelope@, *env) == envelope_lookup_from(
                            self.envelope@,
                            *env,
                            i as int,
                        ),
                    decreases self.envelope@.len() - i,
                {
                    if self.envelope[i].0 == *env {
                        return Some(&self.envelope[i].1);
                    }
                    i += 1;
                }
                None
            },
            _ => None,
        }
    }

    /// Writes a variable. A text value over the size limit is cut at the
    /// limit on a character boundary. A write to an envelope field queues a
    /// `SetEnvelope` event; a write anywhere the runtime cannot store is
    /// dropped.
    pub fn set_variable(&mut self, var_name: &VariableType, variable: Variable)
        requires
            old(self).wf(),
        ensures
            final(self).wf(),
            unchanged_core(*old(self), *final(self)),
            final(self).pc == old(self).pc,
            final(self).cpu == old(self).cpu,
            final(self).actions == old(self).actions,
            final(self).part_stack == old(self).part_stack,
            final(self).vars_match == old(self).vars_match,
            final(self).match_mask == old(self).match_mask,
            final(self).last_test == old(self).last_test,
            final(self).queued_event == old(self).queued_event || (final(self).queued_event
                matches Some(e) && e is SetEnvelope),
            stored_ok(
                *old(self),
                *final(self),
                *var_name,
                truncated_bytes(variable, old(self).max_variable_size as int),
            ),
    {
        let truncated = self.truncate_variable(&variable);
        match var_name {
            VariableType::Local(id) => {
                if *id < self.vars_local.len() {
                    self.vars_local[*id] = truncated;
                }
            },
            VariableType::Global(name) => {
                let mut i: usize = 0;
                while i < self.vars_global.len()
                    invariant
                        self.wf(),
                        unchanged_core(*old(self), *self),
                        self.pc == old(self).pc,
                        self.cpu == old(self).cpu,
                        self.actions == old(self).actions,
                        self.vars_local == old(self).vars_local,
                        self.vars_global == old(self).vars_global,
                        self.envelope == old(self).envelope,
                        self.part_stack == old(self).part_stack,
                        self.queued_event == old(self).queued_event,
                        self.vars_match == old(self).vars_match,
                        self.match_mask == old(self).match_mask,
                        self.last_test == old(self).last_test,
                        var_name matches VariableType::Global(name2) && name2 == name,
                        variable_bytes(truncated) == truncated_bytes(
                            variable,
                            old(self).max_variable_size as int,
                        ),
                        i <= self.vars_global@.len(),
                        forall|j: int|
                            0 <= j < i ==> (#[trigger] self.vars_global@[j]).0@ != name@,
                    decreases self.vars_global@.len() - i,
                {
                    if bytes_eq(&self.vars_global[i].0, name) {
                        let ghost s = self.vars_global@;
                        let ghost stored = truncated;
                        self.vars_global[i].1 = truncated;
                        proof {
                            let t = self.vars_global@;
                            assert(t.len() == s.len());
                            assert(forall|k: int|
                                0 <= k < s.len() && k != i ==> #[trigger] t[k] == s[k]);
                            assert(t[i as int].0@ == name@);
                            assert forall|j: int| 0 <= j < i implies (#[trigger] t[j]).0@
                                != name@ by {
                                assert(t[j] == s[j]);
                            }
                            lemma_global_lookup_skip(t, name@, i as int);
                            assert(global_lookup(t, name@) == Some(t[i as int].1));
                            assert(variable_bytes(t[i as int].1) == variable_bytes(stored));
                            assert forall|other: Seq<u8>|
                                other != name@ implies #[trigger] global_lookup(t, other)
                                == global_lookup(s, other) by {
                                lemma_global_lookup_other(s, t, i as int, other, 0);
                            }
                        }
                        return ;
                    }
                    i += 1;
                }
                let ghost s = self.vars_global@;
                let ghost stored = truncated;
                let entry = (clone_bytes(name), truncated);
                self.vars_global.push(entry);
                proof {
                    let t = self.vars_global@;
                    let e = t[t.len() - 1];
                    assert(t =~= s.push(e));
                    lemma_global_lookup_skip(s, name@, s.len() as int);
                    assert(global_lookup(s, name@) == None::<Variable>);
                    lemma_global_lookup_push(s, e, name@, 0);
                    assert(global_lookup(t, name@) == Some(e.1));
                    assert(variable_bytes(e.1) == variable_bytes(stored));
                    assert forall|other: Seq<u8>|
                        other != name@ implies #[trigger] global_lookup(t, other) == global_lookup(
                        s,
                        other,
                    ) by {
                        lemma_global_lookup_push(s, e, other, 0);
                    }
                }
            },
            VariableType::Envelope(env) => {
                let value = truncated.to_bytes();
                self.add_set_envelope_event(*env, value);
            },
            _ => {},
        }
    }

    /// Cuts a text value at the size limit, on a character boundary.
    fn truncate_variable(&self, variable: &Variable) -> (r: Variable)
        ensures
            variable_bytes(r) == truncated_bytes(*variable, self.max_variable_size as int),
    {
        match variable {
            Variable::Text(t) => {
                if t.len() > self.max_variable_size {
                    let cut = truncate_utf8(t, self.max_variable_size);
                    Variable::Text(cut)
                } else {
                    Variable::Text(clone_bytes(t))
                }
            },
            Variable::Integer(i) => Variable::Integer(*i),
        }
    }

    /// Updates the mirrored envelope field in place (or appends it) and
    /// queues the event that tells the host about the change.
    pub fn add_set_envelope_event(&mut self, envelope: Envelope, value: Vec<u8>)
        requires
            old(self).wf(),
        ensures
            final(self).wf(),
            unchanged_core(*old(self), *final(self)),
            final(self).pc == old(self).pc,
            final(self).cpu == old(self).cpu,
            final(self).actions == old(self).actions,
            final(self).vars_local == old(self).vars_local,
            final(self).vars_global == old(self).vars_global,
            final(self).part_stack == old(self).part_stack,
            final(self).vars_match == old(self).vars_match,
            final(self).match_mask == old(self).match_mask,
            final(self).last_test == old(self).last_test,
            envelope_lookup(old(self).envelope@, envelope) is Some ==> final(self).envelope@.len()
                == old(self).envelope@.len() && exists|i: int|
                0 <= i < old(self).envelope@.len() && (#[trigger] old(self).envelope@[i]).0
                    == envelope && (forall|j: int| 0 <= j < i ==> old(self).envelope@[j].0 != envelope)
                    && final(self).envelope@[i].0 == envelope && variable_bytes(
                    final(self).envelope@[i].1,
                ) == value@ && (forall|k: int|
                    0 <= k < old(self).envelope@.len() && k != i
                        ==> #[trigger] final(self).envelope@[k] == old(self).envelope@[k]),
            envelope_lookup(old(self).envelope@, envelope) is None ==> final(self).envelope@.len()
                == old(self).envelope@.len() + 1 && final(self).envelope@.take(
                old(self).envelope@.len() as int,
            ) == old(self).envelope@ && final(self).envelope@.last().0 == envelope
                && variable_bytes(final(self).envelope@.last().1) == value@,
            match envelope_lookup(final(self).envelope@, envelope) {
                Some(v) => variable_bytes(v) == value@,
                None => false,
            },
            forall|e2: Envelope|
                e2 != envelope ==> #[trigger] envelope_lookup(final(self).envelope@, e2)
                    == envelope_lookup(old(self).envelope@, e2),
            final(self).queued_event matches Some(e) && (e matches Event::SetEnvelope {
                envelope: env2,
                value: v2,
            } && env2 == envelope && v2@ == value@),
    {
        let mut i: usize = 0;
        while i < self.envelope.len()
            invariant
                self.wf(),
                unchanged_core(*old(self), *self),
                self.pc == old(self).pc,
                self.cpu == old(self).cpu,
                self.actions == old(self).actions,
                self.vars_local == old(self).vars_local,
                self.vars_global == old(self).vars_global,
                self.envelope == old(self).envelope,
                self.part_stack == old(self).part_stack,
                self.queued_event == old(self).queued_event,
                self.vars_match == old(self).vars_match,
                self.match_mask == old(self).match_mask,
                self.last_test == old(self).last_test,
                i <= self.envelope@.len(),
                forall|j: int| 0 <= j < i ==> (#[trigger] self.envelope@[j]).0 != envelope,
            decreases self.envelope@.len() - i,
        {
            if self.envelope[i].0 == envelope {
                let ghost s = self.envelope@;
                let stored = Variable::Text(clone_bytes(&value));
                let ghost stored_g = stored;
                self.envelope[i].1 = stored;
                proof {
                    let t = self.envelope@;
                    assert(t.len() == s.len());
                    assert(forall|k: int|
                        0 <= k < s.len() && k != i ==> #[trigger] t[k] == s[k]);
                    assert(t[i as int].0 == envelope);
                    assert forall|j: int| 0 <= j < i implies (#[trigger] t[j]).0 != envelope by {
                        assert(t[j] == s[j]);
                    }
                    lemma_envelope_lookup_skip(t, envelope, i as int);
                    assert(envelope_lookup(t, envelope) == Some(t[i as int].1));
                    assert(variable_bytes(t[i as int].1) == value@);
                    lemma_envelope_lookup_skip(s, envelope, i as int);
                    assert(envelope_lookup(s, envelope) == Some(s[i as int].1));
                    assert forall|e2: Envelope|
                        e2 != envelope implies #[trigger] envelope_lookup(t, e2)
                        == envelope_lookup(s, e2) by {
                        lemma_envelope_lookup_other(s, t, i as int, e2, 0);
                    }
                }
                self.queued_event = Some(Event::SetEnvelope { envelope, value });
                return ;
            }
            i += 1;
        }
        let ghost s = self.envelope@;
        self.envelope.push((envelope, Variable::Text(clone_bytes(&value))));
        proof {
            let t = self.envelope@;
            let e = t[t.len() - 1];
            assert(t =~= s.push(e));
            assert(t.take(s.len() as int) =~= s);
            lemma_envelope_lookup_skip(s, envelope, s.len() as int);
            assert(envelope_lookup(s, envelope) == None::<Variable>);
            lemma_envelope_lookup_push(s, e, envelope, 0);
            assert(envelope_lookup(t, envelope) == Some(e.1));
            assert(variable_bytes(e.1) == value@);
            assert forall|e2: Envelope|
                e2 != envelope implies #[trigger] envelope_lookup(t, e2) == envelope_lookup(
                s,
                e2,
            ) by {
                lemma_envelope_lookup_push(s, e, e2, 0);
            }
        }
        self.queued_event = Some(Event::SetEnvelope { envelope, value });
    }

    /// Releases the locals and match variables a closing block declared:
    /// the named range of local slots reads back empty, the block's match
    /// bits leave the mask, and nothing else moves.
    fn clear_vars(&mut self, c: &Clear)
        requires
            old(self).wf(),
        ensures
            final(self).wf(),
            unchanged_core(*old(self), *final(self)),
            final(self).pc == old(self).pc,
            final(self).cpu == old(self).cpu,
            final(self).actions == old(self).actions,
            final(self).queued_event == old(self).queued_event,
            final(self).vars_global == old(self).vars_global,
            final(self).envelope == old(self).envelope,
            final(self).part_stack == old(self).part_stack,
            final(self).vars_match == old(self).vars_match,
            final(self).last_test == old(self).last_test,
            final(self).match_mask == old(self).match_mask & !c.match_vars,
            final(self).vars_local@.len() == old(self).vars_local@.len(),
            forall|k: int|
                0 <= k < old(self).vars_local@.len() && (k < c.local_vars_idx || k
                    >= c.local_vars_idx + c.local_vars_num)
                    ==> #[trigger] final(self).vars_local@[k] == old(self).vars_local@[k],
            forall|k: int|
                0 <= k < old(self).vars_local@.len() && c.local_vars_idx <= k < c.local_vars_idx
                    + c.local_vars_num ==> variable_bytes(#[trigger] final(self).vars_local@[k])
                    == Seq::<u8>::empty(),
    {
        let base = c.local_vars_idx as usize;
        let count = c.local_vars_num as usize;
        let mut i: usize = 0;
        while i < count
            invariant
                self.wf(),
                unchanged_core(*old(self), *self),
                self.pc == old(self).pc,
                self.cpu == old(self).cpu,
                self.actions == old(self).actions,
                self.queued_event == old(self).queued_event,
                self.vars_global == old(self).vars_global,
                self.envelope == old(self).envelope,
                self.part_stack == old(self).part_stack,
                self.vars_match == old(self).vars_match,
                self.last_test == old(self).last_test,
                self.match_mask == old(self).match_mask,
                self.vars_local@.len() == old(self).vars_local@.len(),
                base == c.local_vars_idx && count == c.local_vars_num,
                i <= count,
                forall|k: int|
                    0 <= k < old(self).vars_local@.len() && (k < base || k >= base + i)
                        ==> #[trigger] self.vars_local@[k] == old(self).vars_local@[k],
                forall|k: int|
                    0 <= k < old(self).vars_local@.len() && base <= k < base + i
                        ==> variable_bytes(#[trigger] self.vars_local@[k]) == Seq::<u8>::empty(),
            decreases count - i,
        {
            if base <= usize::MAX - i {
                let idx = base + i;
                if idx < self.vars_local.len() {
                    self.vars_local[idx] = Variable::Text(Vec::new());
                }
            }
            i += 1;
        }
        self.match_mask = self.match_mask & !c.match_vars;
    }
}

impl SetAction {
    /// Evaluates the value, applies the modifiers in order, and stores the
    /// result in the named variable. Without modifiers, what the named slot
    /// reads back is exactly the evaluated text, cut at the size limit on a
    /// character boundary.
    pub fn exec(&self, ctx: &mut Context<'_>)
        requires
            old(ctx).wf(),
        ensures
            final(ctx).wf(),
            unchanged_core(*old(ctx), *final(ctx)),
            final(ctx).pc == old(ctx).pc,
            final(ctx).cpu == old(ctx).cpu,
            final(ctx).actions == old(ctx).actions,
            final(ctx).part_stack == old(ctx).part_stack,
            final(ctx).vars_match == old(ctx).vars_match,
            final(ctx).match_mask == old(ctx).match_mask,
            final(ctx).last_test == old(ctx).last_test,
            final(ctx).queued_event == old(ctx).queued_event || (final(ctx).queued_event
                matches Some(e) && e is SetEnvelope),
            self.modifiers@.len() == 0 ==> stored_ok(
                *old(ctx),
                *final(ctx),
                self.name,
                crate::strutil::boundary_cut(
                    eval_spec(*old(ctx), self.value),
                    old(ctx).max_variable_size as int,
                ),
            ),
            exists|v: Seq<u8>|
                #[trigger] modifier_chain_rel(
                    *old(ctx),
                    self.modifiers@,
                    self.modifiers@.len() as int,
                    eval_spec(*old(ctx), self.value),
                    v,
                ) && stored_ok(
                    *old(ctx),
                    *final(ctx),
                    self.name,
                    crate::strutil::boundary_cut(v, old(ctx).max_variable_size as int),
                ),
    {
        let mut value = ctx.eval_value(&self.value);
        let ghost mut trace: Seq<Seq<u8>> = seq![value@];
        let mut i: usize = 0;
        while i < self.modifiers.len()
            invariant
                ctx.wf(),
                *ctx == *old(ctx),
                i <= self.modifiers@.len(),
                chain_trace(*old(ctx), self.modifiers@, i as int, trace),
                trace.first() == eval_spec(*old(ctx), self.value),
                trace.last() == value@,
                self.modifiers@.len() == 0 ==> value@ == eval_spec(*old(ctx), self.value),
            decreases self.modifiers@.len() - i,
        {
            let ghost mid = value@;
            value = self.modifiers[i].apply(&value, ctx);
            proof {
                let prev = trace;
                trace = trace.push(value@);
                assert(modifier_rel(*old(ctx), self.modifiers@[i as int], mid, value@));
                assert forall|k: int| 0 <= k < i + 1 implies modifier_rel(
                    *old(ctx),
                    self.modifiers@[k],
                    #[trigger] trace[k],
                    trace[k + 1],
                ) by {
                    if k < i {
                        assert(trace[k] == prev[k]);
                        assert(trace[k + 1] == prev[k + 1]);
                    } else {
                        assert(trace[k] == prev[i as int]);
                        assert(prev[i as int] == prev.last());
                        assert(trace[k + 1] == value@);
                    }
                }
                assert(chain_trace(*old(ctx), self.modifiers@, i + 1, trace));
                assert(trace.first() == prev.first());
            }
            i += 1;
        }
        proof {
            assert(modifier_chain_rel(
                *old(ctx),
                self.modifiers@,
                self.modifiers@.len() as int,
                eval_spec(*old(ctx), self.value),
                value@,
            ));
        }
        ctx.set_variable(&self.name, Variable::Text(value));
    }
}


/// Whether `quotewildcard` escapes this byte.
pub open spec fn qw_escaped(b: u8) -> bool {
    b == 42 || b == 92 || b == 63
}

/// Whether `quoteregex` escapes this byte.
pub open spec fn qr_escaped(b: u8) -> bool {
    b == 42 || b == 92 || b == 63 || b == 46 || b == 91 || b == 93 || b == 40 || b == 41 || b == 43
        || b == 123 || b == 125 || b == 124 || b == 94 || b == 61 || b == 58 || b == 36
}

/// The wildcard-quoted form of the bytes from position `i` on.
pub open spec fn qw_from(s: Seq<u8>, i: int) -> Seq<u8>
    decreases s.len() - i,
{
    if i < 0 || i >= s.len() {
        Seq::empty()
    } else {
        (if qw_escaped(s[i]) {
            seq![92u8, s[i]]
        } else {
            seq![s[i]]
        }) + qw_from(s, i + 1)
    }
}

/// The regex-quoted form of the bytes from position `i` on.
pub open spec fn qr_from(s: Seq<u8>, i: int) -> Seq<u8>
    decreases s.len() - i,
{
    if i < 0 || i >= s.len() {
        Seq::empty()
    } else {
        (if qr_escaped(s[i]) {
            seq![92u8, s[i]]
        } else {
            seq![s[i]]
        }) + qr_from(s, i + 1)
    }
}

/// Whether a byte passes URL encoding unchanged.
pub open spec fn url_unreserved(b: u8) -> bool {
    (48 <= b <= 57) || (65 <= b <= 90) || (97 <= b <= 122) || b == 45 || b == 46 || b == 95 || b
        == 126
}

/// The lower-case hex digit of a value under 16.
pub open spec fn hex_digit(n: u8) -> u8 {
    if n < 10 {
        (48 + n) as u8
    } else {
        (87 + n) as u8
    }
}

/// The URL-encoded form of the bytes from position `i` on.
pub open spec fn eu_from(s: Seq<u8>, i: int) -> Seq<u8>
    decreases s.len() - i,
{
    if i < 0 || i >= s.len() {
        Seq::empty()
    } else {
        (if url_unreserved(s[i]) {
            seq![s[i]]
        } else {
            seq![37u8, hex_digit(s[i] / 16), hex_digit(s[i] % 16)]
        }) + eu_from(s, i + 1)
    }
}

/// The bytes from position `i` on with every occurrence of `find`
/// replaced, left to right and without overlap.
pub open spec fn replace_from(s: Seq<u8>, find: Seq<u8>, rep: Seq<u8>, i: int) -> Seq<u8>
    decreases s.len() - i,
{
    if i < 0 || i >= s.len() {
        Seq::empty()
    } else if find.len() > 0 && i + find.len() <= s.len() && s.subrange(i, i + find.len() as int)
        == find {
        rep + replace_from(s, find, rep, i + find.len() as int)
    } else {
        seq![s[i]] + replace_from(s, find, rep, i + 1)
    }
}

/// Where the character that starts at position `i` ends: at the next
/// character start, so that one character is always emitted or withheld
/// whole.
pub open spec fn unit_end(s: Seq<u8>, i: int) -> int
    decreases s.len() - i,
{
    if i < 0 || i + 1 >= s.len() {
        s.len() as int
    } else if crate::strutil::is_char_start(s[i + 1]) {
        i + 1
    } else {
        unit_end(s, i + 1)
    }
}

/// The wildcard-quoted size of the bytes in `[i, j)`: an escaped byte
/// counts twice.
pub open spec fn qw_cost(s: Seq<u8>, i: int, j: int) -> int
    decreases j - i,
{
    if i < 0 || i >= j || i >= s.len() {
        0
    } else {
        (if qw_escaped(s[i]) {
            2int
        } else {
            1int
        }) + qw_cost(s, i + 1, j)
    }
}

/// The regex-quoted size of the bytes in `[i, j)`.
pub open spec fn qr_cost(s: Seq<u8>, i: int, j: int) -> int
    decreases j - i,
{
    if i < 0 || i >= j || i >= s.len() {
        0
    } else {
        (if qr_escaped(s[i]) {
            2int
        } else {
            1int
        }) + qr_cost(s, i + 1, j)
    }
}

/// The URL-encoded size of the bytes in `[i, j)`.
pub open spec fn eu_cost(s: Seq<u8>, i: int, j: int) -> int
    decreases j - i,
{
    if i < 0 || i >= j || i >= s.len() {
        0
    } else {
        (if url_unreserved(s[i]) {
            1int
        } else {
            3int
        }) + eu_cost(s, i + 1, j)
    }
}

/// A budgeted wildcard quoting: the quoted form of a whole-character
/// prefix, cut only where the next character's quoted bytes would pass the
/// budget.
pub open spec fn qw_result(input: Seq<u8>, max: int, r: Seq<u8>) -> bool {
    &&& r.len() <= max
    &&& exists|k: int|
        #![trigger qw_from(input, k)]
        {
            &&& 0 <= k <= input.len()
            &&& (k == 0 || k == input.len() || crate::strutil::is_char_start(input[k]))
            &&& qw_from(input, 0) == r + qw_from(input, k)
            &&& (k < input.len() ==> r.len() + qw_cost(input, k, unit_end(input, k)) > max)
        }
}

/// A budgeted regex quoting, cut as `qw_result` is.
pub open spec fn qr_result(input: Seq<u8>, max: int, r: Seq<u8>) -> bool {
    &&& r.len() <= max
    &&& exists|k: int|
        #![trigger qr_from(input, k)]
        {
            &&& 0 <= k <= input.len()
            &&& (k == 0 || k == input.len() || crate::strutil::is_char_start(input[k]))
            &&& qr_from(input, 0) == r + qr_from(input, k)
            &&& (k < input.len() ==> r.len() + qr_cost(input, k, unit_end(input, k)) > max)
        }
}

/// A budgeted URL encoding, cut as `qw_result` is.
pub open spec fn eu_result(input: Seq<u8>, max: int, r: Seq<u8>) -> bool {
    &&& r.len() <= max
    &&& exists|k: int|
        #![trigger eu_from(input, k)]
        {
            &&& 0 <= k <= input.len()
            &&& (k == 0 || k == input.len() || crate::strutil::is_char_start(input[k]))
            &&& eu_from(input, 0) == r + eu_from(input, k)
            &&& (k < input.len() ==> r.len() + eu_cost(input, k, unit_end(input, k)) > max)
        }
}

/// No span of bytes has a negative quoted or encoded size.
proof fn lemma_cost_nonneg(s: Seq<u8>, i: int, j: int)
    ensures
        qw_cost(s, i, j) >= 0,
        qr_cost(s, i, j) >= 0,
        eu_cost(s, i, j) >= 0,
    decreases j - i,
{
    if i >= 0 && i < j && i < s.len() {
        lemma_cost_nonneg(s, i + 1, j);
    }
}

/// Where the character at `i` ends, as `unit_end` reads it.
fn unit_end_at(input: &Vec<u8>, i: usize) -> (r: usize)
    requires
        i < input@.len(),
    ensures
        r == unit_end(input@, i as int),
        i < r <= input@.len(),
        r == input@.len() || crate::strutil::is_char_start(input@[r as int]),
{
    let mut j: usize = i;
    while j < input.len() - 1 && !crate::strutil::is_char_start_byte(input[j + 1])
        invariant
            i <= j < input@.len(),
            unit_end(input@, i as int) == unit_end(input@, j as int),
        decreases input@.len() - j,
    {
        j += 1;
    }
    if j < input.len() - 1 {
        j + 1
    } else {
        input.len()
    }
}

fn is_qw_escaped(b: u8) -> (r: bool)
    ensures
        r == qw_escaped(b),
{
    b == 42 || b == 92 || b == 63
}

fn is_qr_escaped(b: u8) -> (r: bool)
    ensures
        r == qr_escaped(b),
{
    b == 42 || b == 92 || b == 63 || b == 46 || b == 91 || b == 93 || b == 40 || b == 41 || b == 43
        || b == 123 || b == 125 || b == 124 || b == 94 || b == 61 || b == 58 || b == 36
}

fn is_url_unreserved(b: u8) -> (r: bool)
    ensures
        r == url_unreserved(b),
{
    (b >= 48 && b <= 57) || (b >= 65 && b <= 90) || (b >= 97 && b <= 122) || b == 45 || b == 46
        || b == 95 || b == 126
}

fn hex_digit_of(n: u8) -> (r: u8)
    requires
        n < 16,
    ensures
        r == hex_digit(n),
{
    if n < 10 {
        48 + n
    } else {
        87 + n
    }
}

/// Escapes the wildcard or regex metacharacters of the input, character by
/// character, stopping before a character whose quoted bytes would pass
/// the byte budget: the cut never splits a character.
fn quote_escaping(input: &Vec<u8>, max_len: usize, regex: bool) -> (r: Vec<u8>)
    ensures
        r@.len() <= max_len,
        regex ==> qr_result(input@, max_len as int, r@),
        !regex ==> qw_result(input@, max_len as int, r@),
{
    let mut out: Vec<u8> = Vec::new();
    let mut i: usize = 0;
    while i < input.len()
        invariant
            i <= input@.len(),
            out@.len() <= max_len,
            i == 0 || i == input@.len() || crate::strutil::is_char_start(input@[i as int]),
            regex ==> qr_from(input@, 0) == out@ + qr_from(input@, i as int),
            !regex ==> qw_from(input@, 0) == out@ + qw_from(input@, i as int),
        decreases input@.len() - i,
    {
        let j = unit_end_at(input, i);
        let mut cost: u128 = 0;
        let mut t: usize = i;
        while t < j
            invariant
                i <= t <= j,
                j <= input@.len(),
                cost <= 3 * (t - i) as u128,
                regex ==> cost + qr_cost(input@, t as int, j as int) == qr_cost(
                    input@,
                    i as int,
                    j as int,
                ),
                !regex ==> cost + qw_cost(input@, t as int, j as int) == qw_cost(
                    input@,
                    i as int,
                    j as int,
                ),
            decreases j - t,
        {
            let b = input[t];
            let esc = if regex {
                is_qr_escaped(b)
            } else {
                is_qw_escaped(b)
            };
            cost += if esc {
                2
            } else {
                1
            };
            t += 1;
        }
        if cost > (max_len - out.len()) as u128 {
            proof {
                if regex {
                    assert(out@.len() + qr_cost(input@, i as int, unit_end(input@, i as int))
                        > max_len);
                    assert(qr_from(input@, 0) == out@ + qr_from(input@, i as int));
                } else {
                    assert(out@.len() + qw_cost(input@, i as int, unit_end(input@, i as int))
                        > max_len);
                    assert(qw_from(input@, 0) == out@ + qw_from(input@, i as int));
                }
            }
            return out;
        }
        let mut t: usize = i;
        while t < j
            invariant
                i <= t <= j,
                j <= input@.len(),
                regex ==> qr_from(input@, 0) == out@ + qr_from(input@, t as int),
                !regex ==> qw_from(input@, 0) == out@ + qw_from(input@, t as int),
                regex ==> out@.len() + qr_cost(input@, t as int, j as int) <= max_len,
                !regex ==> out@.len() + qw_cost(input@, t as int, j as int) <= max_len,
            decreases j - t,
        {
            proof {
                lemma_cost_nonneg(input@, t + 1, j as int);
            }
            let b = input[t];
            let esc = if regex {
                is_qr_escaped(b)
            } else {
                is_qw_escaped(b)
            };
            let ghost out0 = out@;
            if esc {
                out.push(92);
                out.push(b);
                proof {
                    assert(out@ =~= out0 + seq![92u8, b]);
                }
            } else {
                out.push(b);
                proof {
                    assert(out@ =~= out0 + seq![b]);
                }
            }
            proof {
                if regex {
                    assert(qr_from(input@, t as int) == (if qr_escaped(b) {
                        seq![92u8, b]
                    } else {
                        seq![b]
                    }) + qr_from(input@, t + 1));
                    assert(out0 + qr_from(input@, t as int) =~= out@ + qr_from(input@, t + 1));
                } else {
                    assert(qw_from(input@, t as int) == (if qw_escaped(b) {
                        seq![92u8, b]
                    } else {
                        seq![b]
                    }) + qw_from(input@, t + 1));
                    assert(out0 + qw_from(input@, t as int) =~= out@ + qw_from(input@, t + 1));
                }
            }
            t += 1;
        }
        i = j;
    }
    proof {
        if regex {
            assert(qr_from(input@, input@.len() as int) =~= Seq::empty());
            assert(out@ =~= qr_from(input@, 0));
            assert(qr_from(input@, i as int) =~= Seq::empty());
        } else {
            assert(qw_from(input@, input@.len() as int) =~= Seq::empty());
            assert(out@ =~= qw_from(input@, 0));
            assert(qw_from(input@, i as int) =~= Seq::empty());
        }
    }
    out
}

/// URL-encodes the input, character by character, stopping before a
/// character whose encoded bytes would pass the byte budget: the cut never
/// splits a character.
fn encode_url(input: &Vec<u8>, max_len: usize) -> (r: Vec<u8>)
    ensures
        r@.len() <= max_len,
        eu_result(input@, max_len as int, r@),
{
    let mut out: Vec<u8> = Vec::new();
    let mut i: usize = 0;
    while i < input.len()
        invariant
            i <= input@.len(),
            out@.len() <= max_len,
            i == 0 || i == input@.len() || crate::strutil::is_char_start(input@[i as int]),
            eu_from(input@, 0) == out@ + eu_from(input@, i as int),
        decreases input@.len() - i,
    {
        let j = unit_end_at(input, i);
        let mut cost: u128 = 0;
        let mut t: usize = i;
        while t < j
            invariant
                i <= t <= j,
                j <= input@.len(),
                cost <= 3 * (t - i) as u128,
                cost + eu_cost(input@, t as int, j as int) == eu_cost(input@, i as int, j as int),
            decreases j - t,
        {
            let b = input[t];
            cost += if is_url_unreserved(b) {
                1
            } else {
                3
            };
            t += 1;
        }
        if cost > (max_len - out.len()) as u128 {
            proof {
                assert(out@.len() + eu_cost(input@, i as int, unit_end(input@, i as int))
                    > max_len);
                assert(eu_from(input@, 0) == out@ + eu_from(input@, i as int));
            }
            return out;
        }
        let mut t: usize = i;
        while t < j
            invariant
                i <= t <= j,
                j <= input@.len(),
                eu_from(input@, 0) == out@ + eu_from(input@, t as int),
                out@.len() + eu_cost(input@, t as int, j as int) <= max_len,
            decreases j - t,
        {
            proof {
                lemma_cost_nonneg(input@, t + 1, j as int);
            }
            let b = input[t];
            let ghost out0 = out@;
            if is_url_unreserved(b) {
                out.push(b);
                proof {
                    assert(out@ =~= out0 + seq![b]);
                }
            } else {
                out.push(37);
                out.push(hex_digit_of(b / 16));
                out.push(hex_digit_of(b % 16));
                proof {
                    assert(out@ =~= out0 + seq![37u8, hex_digit(b / 16), hex_digit(b % 16)]);
                }
            }
            proof {
                assert(eu_from(input@, t as int) == (if url_unreserved(b) {
                    seq![b]
                } else {
                    seq![37u8, hex_digit(b / 16), hex_digit(b % 16)]
                }) + eu_from(input@, t + 1));
                assert(out0 + eu_from(input@, t as int) =~= out@ + eu_from(input@, t + 1));
            }
            t += 1;
        }
        i = j;
    }
    proof {
        assert(eu_from(input@, input@.len() as int) =~= Seq::empty());
        assert(out@ =~= eu_from(input@, 0));
        assert(eu_from(input@, i as int) =~= Seq::empty());
    }
    out
}

/// Whether `find` sits in `hay` at position `i`.
fn match_at(hay: &Vec<u8>, i: usize, find: &Vec<u8>) -> (r: bool)
    requires
        i + find@.len() <= hay@.len(),
    ensures
        r == (hay@.subrange(i as int, i + find@.len() as int) == find@),
{
    let hl = hay.len();
    let mut j: usize = 0;
    while j < find.len()
        invariant
            j <= find@.len(),
            hl == hay@.len(),
            i + find@.len() <= hl,
            forall|k: int| 0 <= k < j ==> hay@[i + k] == find@[k],
        decreases find@.len() - j,
    {
        if hay[i + j] != find[j] {
            proof {
                assert(hay@.subrange(i as int, i + find@.len() as int)[j as int] != find@[j as int]);
            }
            return false;
        }
        j += 1;
    }
    proof {
        assert(hay@.subrange(i as int, i + find@.len() as int) =~= find@);
    }
    true
}

/// Replaces every occurrence of `find` with `rep`, left to right and
/// without overlap; an empty `find` leaves the input unchanged.
fn replace_bytes(input: &Vec<u8>, find: &Vec<u8>, rep: &Vec<u8>) -> (r: Vec<u8>)
    ensures
        find@.len() == 0 ==> r@ == input@,
        find@.len() > 0 ==> r@ == replace_from(input@, find@, rep@, 0),
{
    if find.len() == 0 {
        return clone_bytes(input);
    }
    let mut out: Vec<u8> = Vec::new();
    let mut i: usize = 0;
    while i < input.len()
        invariant
            i <= input@.len(),
            find@.len() > 0,
            replace_from(input@, find@, rep@, 0) == out@ + replace_from(input@, find@, rep@, i as int),
        decreases input@.len() - i,
    {
        let ghost out0 = out@;
        let flen = find.len();
        if flen <= input.len() && i <= input.len() - flen && match_at(input, i, find) {
            let mut piece = clone_bytes(rep);
            out.append(&mut piece);
            proof {
                assert(out@ =~= out0 + rep@);
                assert(replace_from(input@, find@, rep@, i as int) == rep@ + replace_from(
                    input@,
                    find@,
                    rep@,
                    i + find@.len() as int,
                ));
                assert(out0 + replace_from(input@, find@, rep@, i as int) =~= out@ + replace_from(
                    input@,
                    find@,
                    rep@,
                    i + find@.len() as int,
                ));
            }
            i += flen;
        } else {
            let b = input[i];
            out.push(b);
            proof {
                assert(out@ =~= out0 + seq![b]);
                assert(replace_from(input@, find@, rep@, i as int) == seq![input@[i as int]]
                    + replace_from(input@, find@, rep@, i + 1));
                assert(out0 + replace_from(input@, find@, rep@, i as int) =~= out@ + replace_from(
                    input@,
                    find@,
                    rep@,
                    i + 1,
                ));
            }
            i += 1;
        }
    }
    proof {
        assert(replace_from(input@, find@, rep@, input@.len() as int) =~= Seq::empty());
        assert(out@ =~= replace_from(input@, find@, rep@, 0));
    }
    out
}

/// The byte length of the character a leading byte opens.
pub open spec fn utf8_len_of(b: u8) -> int {
    if b < 128 {
        1
    } else if b < 224 {
        2
    } else if b < 240 {
        3
    } else {
        4
    }
}

/// Where the first character of the bytes ends.
pub open spec fn first_char_end(s: Seq<u8>) -> int {
    if s.len() == 0 {
        0
    } else if utf8_len_of(s[0]) <= s.len() {
        utf8_len_of(s[0])
    } else {
        s.len() as int
    }
}

/// What applying one modifier yields: exact for the total forms, and
/// exact-unless-the-budget-cut-in for the escaping and encoding forms.
pub open spec fn modifier_rel(c: Context<'_>, m: Modifier, input: Seq<u8>, r: Seq<u8>) -> bool {
    match m {
        Modifier::Lower => r == lower_of(input),
        Modifier::Upper => r == upper_of(input),
        Modifier::LowerFirst => {
            let full = lower_of(input.take(first_char_end(input))) + input.skip(
                first_char_end(input),
            );
            r.len() <= c.max_variable_size && r == full.take(r.len() as int) && (full.len()
                <= c.max_variable_size ==> r == full)
        },
        Modifier::UpperFirst => {
            let full = upper_of(input.take(first_char_end(input))) + input.skip(
                first_char_end(input),
            );
            r.len() <= c.max_variable_size && r == full.take(r.len() as int) && (full.len()
                <= c.max_variable_size ==> r == full)
        },
        Modifier::QuoteWildcard => qw_result(input, c.max_variable_size as int, r),
        Modifier::QuoteRegex => qr_result(input, c.max_variable_size as int, r),
        Modifier::Length => r == decimal_bytes(crate::strutil::char_count(input) as nat),
        Modifier::EncodeUrl => eu_result(input, c.max_variable_size as int, r),
        Modifier::Replace { find, replace } => if eval_spec(c, find).len() == 0 {
            r == input
        } else {
            r == replace_from(input, eval_spec(c, find), eval_spec(c, replace), 0)
        },
    }
}

/// A run of intermediate values under the first `i` modifiers: each step
/// turns one value into the next as that modifier allows.
pub open spec fn chain_trace(c: Context<'_>, mods: Seq<Modifier>, i: int, vals: Seq<Seq<u8>>) -> bool {
    &&& 0 <= i <= mods.len()
    &&& vals.len() == i + 1
    &&& forall|k: int| 0 <= k < i ==> modifier_rel(c, mods[k], #[trigger] vals[k], vals[k + 1])
}

/// What the first `i` modifiers, applied left to right, can turn `input`
/// into.
pub open spec fn modifier_chain_rel(
    c: Context<'_>,
    mods: Seq<Modifier>,
    i: int,
    input: Seq<u8>,
    out: Seq<u8>,
) -> bool {
    exists|vals: Seq<Seq<u8>>|
        #[trigger] chain_trace(c, mods, i, vals) && vals.first() == input && vals.last() == out
}

impl Modifier {
    /// Applies one `set` modifier to a value, reading the byte budget and
    /// the `:replace` arguments from the execution context.
    pub fn apply(&self, input: &Vec<u8>, ctx: &Context<'_>) -> (r: Vec<u8>)
        requires
            ctx.wf(),
        ensures
            modifier_rel(*ctx, *self, input@, r@),
            self is Lower ==> r@ == lower_of(input@),
            self is Upper ==> r@ == upper_of(input@),
            self is LowerFirst ==> ({
                let full = lower_of(input@.take(first_char_end(input@))) + input@.skip(
                    first_char_end(input@),
                );
                r@.len() <= ctx.max_variable_size && r@ == full.take(r@.len() as int) && (full.len() <= ctx.max_variable_size
                    ==> r@ == full)
            }),
            self is UpperFirst ==> ({
                let full = upper_of(input@.take(first_char_end(input@))) + input@.skip(
                    first_char_end(input@),
                );
                r@.len() <= ctx.max_variable_size && r@ == full.take(r@.len() as int) && (full.len() <= ctx.max_variable_size
                    ==> r@ == full)
            }),
            self is Length ==> r@ == decimal_bytes(crate::strutil::char_count(input@) as nat),
            self is QuoteWildcard ==> qw_result(input@, ctx.max_variable_size as int, r@),
            self is QuoteRegex ==> qr_result(input@, ctx.max_variable_size as int, r@),
            self is EncodeUrl ==> eu_result(input@, ctx.max_variable_size as int, r@),
            self matches Modifier::Replace { find, replace } ==> (if eval_spec(
                *ctx,
                *find,
            ).len() == 0 {
                r@ == input@
            } else {
                r@ == replace_from(
                    input@,
                    eval_spec(*ctx, *find),
                    eval_spec(*ctx, *replace),
                    0,
                )
            }),
    {
        match self {
            Modifier::Lower => lowercase_bytes(input),
            Modifier::Upper => uppercase_bytes(input),
            Modifier::LowerFirst => {
                let k = first_char_span(input);
                let head = crate::strutil::copy_byte_range(input, 0, k);
                let mut lowered = lowercase_bytes(&head);
                let mut rest = crate::strutil::copy_byte_range(input, k, input.len());
                proof {
                    assert(head@ =~= input@.take(first_char_end(input@)));
                    assert(rest@ =~= input@.skip(first_char_end(input@)));
                }
                let ghost rest0 = rest@;
                lowered.append(&mut rest);
                proof {
                    assert(lowered@ == lower_of(input@.take(first_char_end(input@))) + rest0);
                }
                truncate_utf8(&lowered, ctx.max_variable_size)
            },
            Modifier::UpperFirst => {
                let k = first_char_span(input);
                let head = crate::strutil::copy_byte_range(input, 0, k);
                let mut uppered = uppercase_bytes(&head);
                let mut rest = crate::strutil::copy_byte_range(input, k, input.len());
                proof {
                    assert(head@ =~= input@.take(first_char_end(input@)));
                    assert(rest@ =~= input@.skip(first_char_end(input@)));
                }
                let ghost rest0 = rest@;
                uppered.append(&mut rest);
                proof {
                    assert(uppered@ == upper_of(input@.take(first_char_end(input@))) + rest0);
                }
                truncate_utf8(&uppered, ctx.max_variable_size)
            },
            Modifier::QuoteWildcard => quote_escaping(input, ctx.max_variable_size, false),
            Modifier::QuoteRegex => quote_escaping(input, ctx.max_variable_size, true),
            Modifier::Length => crate::strutil::to_decimal_bytes(
                crate::strutil::count_chars(input),
            ),
            Modifier::EncodeUrl => encode_url(input, ctx.max_variable_size),
            Modifier::Replace { find, replace } => {
                let find_b = ctx.eval_value(find);
                let replace_b = ctx.eval_value(replace);
                replace_bytes(input, &find_b, &replace_b)
            },
        }
    }
}

/// The end of the input's first character, as a position in the bytes.
fn first_char_span(input: &Vec<u8>) -> (r: usize)
    ensures
        r == first_char_end(input@),
        r <= input@.len(),
{
    if input.len() == 0 {
        return 0;
    }
    let b = input[0];
    let k: usize = if b < 128 {
        1
    } else if b < 224 {
        2
    } else if b < 240 {
        3
    } else {
        4
    };
    if k <= input.len() {
        k
    } else {
        input.len()
    }
}


impl<'x> Context<'x> {
    /// Advances execution until the next event for the host. A terminating
    /// run ends with `Finished`, whose action list is exactly one `keep`
    /// when nothing the script did canceled the implicit keep.
    pub fn run(&mut self) -> (r: Result<Event, RuntimeError>)
        requires
            old(self).wf(),
        ensures
            final(self).wf(),
            unchanged_core(*old(self), *final(self)),
            old(self).actions.actions@.is_prefix_of(final(self).actions.actions@),
            final(self).cpu >= old(self).cpu,
            final(self).queued_event is None,
            r matches Ok(e) ==> (e matches Event::Finished { actions, implicit_keep }
                ==> final(self).pc == final(self).program.instructions@.len() && implicit_keep
                == !has_canceling(final(self).actions.actions@) && (implicit_keep
                ==> actions@.len() == 1 && actions@[0] is Keep)),
            r matches Err(e) ==> (e is CPULimitReached ==> final(self).cpu == final(self).cpu_limit),
            old(self).queued_event matches Some(e) ==> r == Ok::<Event, RuntimeError>(e),
            old(self).queued_event is None && old(self).pc >= old(
                self,
            ).program.instructions@.len() ==> (r matches Ok(e) && e is Finished),
    {
        let queued = self.queued_event.take();
        if let Some(e) = queued {
            return Ok(e);
        }
        let program = self.program;
        let len = program.instructions.len();
        loop
            invariant
                self.wf(),
                unchanged_core(*old(self), *self),
                self.program == program,
                len == program.instructions@.len(),
                self.queued_event is None,
                self.cpu >= old(self).cpu,
                old(self).actions.actions@.is_prefix_of(self.actions.actions@),
                old(self).queued_event is None,
                old(self).pc >= len ==> self.pc >= len,
            decreases self.cpu_limit - self.cpu,
        {
            let pc = self.pc;
            if pc >= len {
                let (actions, implicit_keep) = self.actions.finalize();
                return Ok(Event::Finished { actions, implicit_keep });
            }
            if self.cpu >= self.cpu_limit {
                return Err(RuntimeError::CPULimitReached);
            }
            self.cpu = self.cpu + 1;
            proof {
                assert(crate::instruction::jumps_resolved(program.instructions@));
                assert(instr_jumps_ok(program.instructions@[pc as int], len as int));
            }
            match &program.instructions[pc] {
                Instruction::Require(_) => {
                    self.pc = pc + 1;
                },
                Instruction::Keep => {
                    self.actions.add(Action::Keep);
                    self.pc = pc + 1;
                },
                Instruction::FileInto(f) => {
                    let folder = self.eval_value(&f.folder);
                    self.actions.add(Action::FileInto { folder, copy: f.copy, create: f.create });
                    self.pc = pc + 1;
                },
                Instruction::Redirect(rd) => {
                    let address = self.eval_value(&rd.address);
                    self.actions.add(Action::Redirect { address, copy: rd.copy });
                    self.pc = pc + 1;
                },
                Instruction::Discard => {
                    self.actions.add(Action::Discard);
                    self.pc = pc + 1;
                },
                Instruction::Stop => {
                    self.pc = len;
                },
                Instruction::Test(t) => {
                    let v = self.eval_test(t);
                    self.last_test = v;
                    self.pc = pc + 1;
                },
                Instruction::Jmp(t) => {
                    self.pc = *t;
                },
                Instruction::Jz(t) => {
                    if !self.last_test {
                        self.pc = *t;
                    } else {
                        self.pc = pc + 1;
                    }
                },
                Instruction::Jnz(t) => {
                    if self.last_test {
                        self.pc = *t;
                    } else {
                        self.pc = pc + 1;
                    }
                },
                Instruction::ForEveryPartPush => {
                    self.push_part_iter();
                    self.pc = pc + 1;
                },
                Instruction::ForEveryPart(f) => {
                    let jz = f.jz_pos;
                    let n = self.part_stack.len();
                    if n == 0 {
                        self.pc = jz;
                    } else {
                        let has_next = self.part_stack[n - 1].idx < self.part_stack[n
                            - 1].parts.len();
                        if has_next {
                            let idx = self.part_stack[n - 1].idx;
                            self.part_stack[n - 1].idx = idx + 1;
                            self.pc = pc + 1;
                        } else {
                            let _ = self.part_stack.pop();
                            self.pc = jz;
                        }
                    }
                },
                Instruction::ForEveryPartPop(count) => {
                    let mut k: usize = 0;
                    let n = *count;
                    let ghost cpu0 = self.cpu;
                    while k < n
                        invariant
                            self.wf(),
                            unchanged_core(*old(self), *self),
                            self.program == program,
                            self.queued_event is None,
                            self.pc == pc,
                            self.cpu == cpu0,
                            self.cpu <= self.cpu_limit,
                            old(self).actions.actions@.is_prefix_of(self.actions.actions@),
                            k <= n,
                        decreases n - k,
                    {
                        let _ = self.part_stack.pop();
                        k += 1;
                    }
                    self.pc = pc + 1;
                },
                Instruction::SetVar(s) => {
                    s.exec(self);
                    self.pc = pc + 1;
                    let queued = self.queued_event.take();
                    if let Some(e) = queued {
                        return Ok(e);
                    }
                },
                Instruction::Clear(cl) => {
                    self.clear_vars(cl);
                    self.pc = pc + 1;
                },
                Instruction::Reject(rj) => {
                    let reason = self.eval_value(&rj.reason);
                    self.actions.add(Action::Reject { ereject: rj.ereject, reason });
                    self.pc = pc + 1;
                },
                Instruction::ErrorCmd(e) => {
                    let message = self.eval_value(&e.message);
                    return Err(RuntimeError::ScriptErrorMessage(message));
                },
                Instruction::Include(inc) => {
                    let name = self.eval_value(&inc.name);
                    self.pc = pc + 1;
                    return Ok(
                        Event::IncludeScript {
                            name,
                            location: inc.location,
                            once: inc.once,
                            optional: inc.optional,
                        },
                    );
                },
                Instruction::Invalid(inv) => {
                    return Err(
                        RuntimeError::InvalidInstruction {
                            name: clone_bytes(&inv.name),
                            line_num: inv.line_num,
                            line_pos: inv.line_pos,
                        },
                    );
                },
                Instruction::Return => {
                    self.pc = len;
                },
            }
        }
    }
}

} // verus!
