use vstd::prelude::*;
use vstd::string::StringExecFns;

verus! {

/// The separator between an opcode and the path in a topic.
pub open spec fn separator() -> Seq<char> {
    seq![':', '/', '/']
}

/// The opcode of topics on the public channel.
pub open spec fn new_opcode() -> Seq<char> {
    seq!['N', 'E', 'W']
}

/// The topic under which an event of opcode `op` on `path` travels.
pub open spec fn topic_of(op: Seq<char>, path: Seq<char>) -> Seq<char> {
    op + separator() + path
}

/// `d` occurs in `s` starting at index `i`.
pub open spec fn occurs_at(s: Seq<char>, d: Seq<char>, i: int) -> bool {
    0 <= i && i + d.len() <= s.len() && s.subrange(i, i + d.len()) == d
}

/// The index of the first separator in `s` at or after `i`.
pub open spec fn separator_from(s: Seq<char>, i: int) -> Option<int>
    decreases s.len() - i,
{
    if i < 0 || i + 3 > s.len() {
        None
    } else if occurs_at(s, separator(), i) {
        Some(i)
    } else {
        separator_from(s, i + 1)
    }
}

/// A topic split at its first separator into opcode and path.
pub open spec fn decode_spec(s: Seq<char>) -> Option<(Seq<char>, Seq<char>)> {
    match separator_from(s, 0) {
        Some(i) => Some((s.subrange(0, i), s.subrange(i + 3, s.len() as int))),
        None => None,
    }
}

/// An opcode holds no colon, so no separator starts inside it.
pub open spec fn valid_opcode(op: Seq<char>) -> bool {
    forall|j: int| 0 <= j < op.len() ==> op[j] != ':'
}

proof fn lemma_separator_from_first(s: Seq<char>, i: int, k: int)
    requires
        0 <= i <= k,
        occurs_at(s, separator(), k),
        forall|j: int| i <= j < k ==> !occurs_at(s, separator(), j),
    ensures
        separator_from(s, i) == Some(k),
    decreases k - i,
{
    if i < k {
        lemma_separator_from_first(s, i + 1, k);
    }
}

proof fn lemma_separator_from_none(s: Seq<char>, i: int)
    requires
        0 <= i,
        forall|j: int| i <= j ==> !occurs_at(s, separator(), j),
    ensures
        separator_from(s, i) is None,
    decreases s.len() - i,
{
    if i + 3 <= s.len() {
        lemma_separator_from_none(s, i + 1);
    }
}

/// Builds the public topic `NEW://<path>` for a path.
pub fn new_path_envelope(path_name: &str) -> (r: String)
    ensures
        r@ == topic_of(new_opcode(), path_name@),
{
    proof {
        reveal_strlit("NEW://");
    }
    let mut envelope = String::from_str("NEW://");
    envelope.append(path_name);
    envelope
}

/// Splits a topic at its first `://` into the opcode and the path; `None`
/// when the topic holds no separator.
pub fn parse_envelope(envelope_name: &str) -> (r: Option<(String, String)>)
    ensures
        r is None <==> decode_spec(envelope_name@) is None,
        r matches Some(parts) ==> decode_spec(envelope_name@) == Some((parts.0@, parts.1@)),
{
    let ghost s = envelope_name@;
    let cs = chars_of(envelope_name);
    let n = cs.len();
    let mut i: usize = 0;
    while i < n && n - i >= 3
        invariant
            i <= n,
            n == cs@.len(),
            cs@ == s,
            s == envelope_name@,
            forall|j: int| 0 <= j < i ==> !occurs_at(s, separator(), j),
        decreases n - i,
    {
        if cs[i] == ':' && cs[i + 1] == '/' && cs[i + 2] == '/' {
            proof {
                assert(s.subrange(i as int, i + 3) =~= separator());
                lemma_separator_from_first(s, 0, i as int);
            }
            let op = text_of(&cs, 0, i);
            let path = text_of(&cs, i + 3, n);
            return Some((op, path));
        }
        proof {
            if occurs_at(s, separator(), i as int) {
                let w = s.subrange(i as int, i + 3);
                assert(w[0] == s[i as int] && w[1] == s[i + 1] && w[2] == s[i + 2]);
            }
        }
        i = i + 1;
    }
    proof {
        assert forall|j: int| 0 <= j implies !occurs_at(s, separator(), j) by {
            if j < i {
            } else {
                assert(j + 3 > s.len());
            }
        }
        lemma_separator_from_none(s, 0);
    }
    None
}

/// The characters of `cs` from `from` up to `to`, as a string.
fn text_of(cs: &Vec<char>, from: usize, to: usize) -> (r: String)
    requires
        from <= to <= cs@.len(),
    ensures
        r@ == cs@.subrange(from as int, to as int),
{
    let mut out = String::new();
    let mut i: usize = from;
    while i < to
        invariant
            from <= i <= to,
            to <= cs@.len(),
            out@ == cs@.subrange(from as int, i as int),
        decreases to - i,
    {
        push_char(&mut out, cs[i]);
        proof {
            assert(out@ =~= cs@.subrange(from as int, i + 1));
        }
        i = i + 1;
    }
    out
}

/// The two kinds of change that the watcher reports.
#[derive(Clone, Copy, Debug, PartialEq, Eq, Structural)]
pub enum ChangeKind {
    Create,
    Write,
}

impl ChangeKind {
    /// The opcode of this kind on the internal channel.
    pub open spec fn opcode_spec(self) -> Seq<char> {
        match self {
            ChangeKind::Create => seq!['C', 'R', 'E', 'A', 'T', 'E'],
            ChangeKind::Write => seq!['W', 'R', 'I', 'T', 'E'],
        }
    }

    /// The opcode of this kind on the internal channel.
    pub fn opcode(&self) -> (r: &'static str)
        ensures
            r@ == self.opcode_spec(),
    {
        proof {
            reveal_strlit("CREATE");
            reveal_strlit("WRITE");
        }
        match self {
            ChangeKind::Create => "CREATE",
            ChangeKind::Write => "WRITE",
        }
    }
}

/// The kind whose opcode is `op`, if any.
pub open spec fn kind_of_spec(op: Seq<char>) -> Option<ChangeKind> {
    if op == ChangeKind::Create.opcode_spec() {
        Some(ChangeKind::Create)
    } else if op == ChangeKind::Write.opcode_spec() {
        Some(ChangeKind::Write)
    } else {
        None
    }
}

/// The characters of a string, in order.
pub fn chars_of(s: &str) -> (r: Vec<char>)
    ensures
        r@ == s@,
{
    broadcast use vstd::string::group_string_axioms;

    let mut out: Vec<char> = Vec::new();
    for c in it: s.chars()
        invariant
            out@ == it.seq().subrange(0, it.index() as int),
            it.seq() == s@,
    {
        out.push(c);
    }
    out
}

/// Relies on String::push: the character is appended at the end.
#[verifier::external_body]
pub(crate) fn push_char(s: &mut String, c: char)
    ensures
        final(s)@ == old(s)@.push(c),
{
    s.push(c)
}

/// Whether two strings hold the same characters.
pub fn same_text(a: &str, b: &str) -> (r: bool)
    ensures
        r == (a@ == b@),
{
    a.to_owned() == b.to_owned()
}

/// The kind whose opcode is `op`; `None` for any other opcode.
pub fn kind_of_opcode(op: &str) -> (r: Option<ChangeKind>)
    ensures
        r == kind_of_spec(op@),
{
    if same_text(op, ChangeKind::Create.opcode()) {
        Some(ChangeKind::Create)
    } else if same_text(op, ChangeKind::Write.opcode()) {
        Some(ChangeKind::Write)
    } else {
        None
    }
}

/// The topic of a change: `<OPCODE>://<path>`.
pub open spec fn encode_spec(kind: ChangeKind, path: Seq<char>) -> Seq<char> {
    topic_of(kind.opcode_spec(), path)
}

/// A topic read back as a change, when its opcode is that of a kind.
pub open spec fn decode_change_spec(topic: Seq<char>) -> Option<(ChangeKind, Seq<char>)> {
    match decode_spec(topic) {
        Some((op, path)) => match kind_of_spec(op) {
            Some(kind) => Some((kind, path)),
            None => None,
        },
        None => None,
    }
}

/// Builds the topic `<OPCODE>://<path>` of a change.
pub fn encode_topic(kind: ChangeKind, path: &str) -> (r: String)
    ensures
        r@ == encode_spec(kind, path@),
{
    proof {
        reveal_strlit("://");
    }
    let mut topic = String::from_str(kind.opcode());
    topic.append("://");
    topic.append(path);
    proof {
        assert(topic@ =~= encode_spec(kind, path@));
    }
    topic
}

/// Reads a topic back as a change; `None` when it has no separator or its
/// opcode is not one of a kind.
pub fn decode_topic(topic: &str) -> (r: Option<(ChangeKind, String)>)
    ensures
        r is None <==> decode_change_spec(topic@) is None,
        r matches Some(parts) ==> decode_change_spec(topic@) == Some((parts.0, parts.1@)),
{
    match parse_envelope(topic) {
        Some((op, path)) => match kind_of_opcode(op.as_str()) {
            Some(kind) => Some((kind, path)),
            None => None,
        },
        None => None,
    }
}

/// Splitting a topic at its first separator gives back the opcode and the
/// path it was built from, whatever the path holds.
pub proof fn lemma_topic_split(op: Seq<char>, path: Seq<char>)
    requires
        valid_opcode(op),
    ensures
        decode_spec(topic_of(op, path)) == Some((op, path)),
{
    let s = topic_of(op, path);
    let k = op.len() as int;
    assert(s.subrange(k, k + 3) =~= separator());
    assert forall|j: int| 0 <= j < k implies !occurs_at(s, separator(), j) by {
        assert(s[j] == op[j]);
        if occurs_at(s, separator(), j) {
            assert(s.subrange(j, j + 3)[0] == s[j]);
        }
    }
    lemma_separator_from_first(s, 0, k);
    assert(s.subrange(0, k) =~= op);
    assert(s.subrange(k + 3, s.len() as int) =~= path);
}

/// Round trip: decoding the topic of a change gives back the same kind and
/// the same path.
pub proof fn lemma_round_trip(kind: ChangeKind, path: Seq<char>)
    ensures
        decode_change_spec(encode_spec(kind, path)) == Some((kind, path)),
{
    assert(valid_opcode(kind.opcode_spec()));
    lemma_topic_split(kind.opcode_spec(), path);
}

/// `b` lies strictly below the directory `a`: it continues `a` past a path
/// separator.
pub open spec fn strictly_under(a: Seq<char>, b: Seq<char>) -> bool {
    &&& a.len() < b.len()
    &&& b.subrange(0, a.len() as int) == a
    &&& (b[a.len() as int] == '/' || (a.len() > 0 && a.last() == '/'))
}

/// `p` is a proper prefix of `s`.
pub open spec fn proper_prefix(p: Seq<char>, s: Seq<char>) -> bool {
    p.len() < s.len() && s.subrange(0, p.len() as int) == p
}

/// Prefix containment: the topic of a directory is a proper prefix of the
/// topic of every path below it, under the same opcode, so one prefix
/// subscription to a directory matches everything later created below it.
pub proof fn lemma_prefix_containment(op: Seq<char>, a: Seq<char>, b: Seq<char>)
    requires
        strictly_under(a, b),
    ensures
        proper_prefix(topic_of(op, a), topic_of(op, b)),
{
    let ta = topic_of(op, a);
    let tb = topic_of(op, b);
    assert(tb.subrange(0, ta.len() as int) =~= ta) by {
        assert forall|i: int| 0 <= i < ta.len() implies tb[i] == ta[i] by {
            if i >= op.len() + 3 {
                assert(b[i - op.len() - 3] == b.subrange(0, a.len() as int)[i - op.len() - 3]);
            }
        }
    }
}

} // verus!
