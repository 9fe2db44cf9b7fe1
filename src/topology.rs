use vstd::prelude::*;
use vstd::string::StringExecFns;

use crate::codec::{chars_of, push_char, same_text};

verus! {

/// A request on the discovery channel.
#[derive(Clone, Copy, Debug, PartialEq, Eq, Structural)]
pub enum TopologyRequest {
    Topology,
    Unsupported,
}

/// The one request literal that the discovery service answers.
pub open spec fn topology_literal() -> Seq<char> {
    seq!['t', 'o', 'p', 'o', 'l', 'o', 'g', 'y']
}

/// The answer to any other request.
pub open spec fn unsupported_literal() -> Seq<char> {
    "Unsupported operation"@
}

/// Reads a discovery request.
pub fn parse_request(msg: &str) -> (r: TopologyRequest)
    ensures
        r == (if msg@ == topology_literal() {
            TopologyRequest::Topology
        } else {
            TopologyRequest::Unsupported
        }),
{
    proof {
        reveal_strlit("topology");
        assert("topology"@ =~= topology_literal());
    }
    if same_text(msg, "topology") {
        TopologyRequest::Topology
    } else {
        TopologyRequest::Unsupported
    }
}

/// The entries of a walk as plain values: each path with whether it is a
/// directory.
pub open spec fn entries_view(entries: Seq<(String, bool)>) -> Seq<(Seq<char>, bool)> {
    entries.map_values(|e: (String, bool)| (e.0@, e.1))
}

/// The paths of the directories among `entries`, in walk order.
pub open spec fn dirs_of(entries: Seq<(Seq<char>, bool)>) -> Seq<Seq<char>>
    decreases entries.len(),
{
    if entries.len() == 0 {
        seq![]
    } else {
        let rest = dirs_of(entries.drop_last());
        if entries.last().1 {
            rest.push(entries.last().0)
        } else {
            rest
        }
    }
}

/// The text of `c` inside an EDN string: a backslash or a double quote
/// gets a backslash before it.
pub open spec fn escaped_char(c: char) -> Seq<char> {
    if c == '\\' || c == '"' {
        seq!['\\', c]
    } else {
        seq![c]
    }
}

/// The text of `p` inside an EDN string.
pub open spec fn escaped(p: Seq<char>) -> Seq<char>
    decreases p.len(),
{
    if p.len() == 0 {
        seq![]
    } else {
        escaped(p.drop_last()) + escaped_char(p.last())
    }
}

/// A path as an EDN string: escaped, between double quotes.
pub open spec fn quoted(p: Seq<char>) -> Seq<char> {
    seq!['"'] + escaped(p) + seq!['"']
}

/// Items joined with commas.
pub open spec fn joined(items: Seq<Seq<char>>) -> Seq<char>
    decreases items.len(),
{
    if items.len() == 0 {
        seq![]
    } else if items.len() == 1 {
        items[0]
    } else {
        joined(items.drop_last()) + seq![','] + items.last()
    }
}

/// The serialized listing: a vector of quoted paths.
pub open spec fn listing_spec(items: Seq<Seq<char>>) -> Seq<char> {
    seq!['['] + joined(items) + seq![']']
}

/// The answer of the discovery service to a request, over a fresh walk of
/// the tree.
pub open spec fn response_spec(request: Seq<char>, entries: Seq<(Seq<char>, bool)>) -> Seq<char> {
    if request == topology_literal() {
        listing_spec(dirs_of(entries).map_values(|p: Seq<char>| quoted(p)))
    } else {
        unsupported_literal()
    }
}

/// Writes a path as an EDN string: a backslash or a double quote in it
/// gets a backslash before it, and the whole stands between double quotes.
pub fn quote_path(p: &str) -> (r: String)
    ensures
        r@ == quoted(p@),
{
    let cs = chars_of(p);
    let mut s = String::new();
    push_char(&mut s, '"');
    let mut i: usize = 0;
    while i < cs.len()
        invariant
            i <= cs@.len(),
            cs@ == p@,
            s@ == seq!['"'] + escaped(cs@.subrange(0, i as int)),
        decreases cs@.len() - i,
    {
        let c = cs[i];
        let ghost prev = s@;
        proof {
            assert(cs@.subrange(0, i + 1).drop_last() =~= cs@.subrange(0, i as int));
        }
        if c == '\\' || c == '"' {
            push_char(&mut s, '\\');
        }
        push_char(&mut s, c);
        proof {
            assert(s@ =~= prev + escaped_char(c));
        }
        i = i + 1;
    }
    push_char(&mut s, '"');
    proof {
        assert(cs@.subrange(0, cs@.len() as int) =~= cs@);
        assert(s@ =~= quoted(p@));
    }
    s
}

/// The directories of a walk, each quoted, in walk order; files are left out.
pub fn quoted_dirs(entries: &Vec<(String, bool)>) -> (r: Vec<String>)
    ensures
        r@.map_values(|s: String| s@) == dirs_of(entries_view(entries@)).map_values(
            |p: Seq<char>| quoted(p),
        ),
{
    let mut out: Vec<String> = Vec::new();
    let mut i: usize = 0;
    while i < entries.len()
        invariant
            i <= entries@.len(),
            out@.map_values(|s: String| s@) == dirs_of(
                entries_view(entries@.subrange(0, i as int)),
            ).map_values(|p: Seq<char>| quoted(p)),
        decreases entries@.len() - i,
    {
        let ghost before = entries_view(entries@.subrange(0, i as int));
        let ghost after = entries_view(entries@.subrange(0, i + 1));
        proof {
            assert(after.drop_last() =~= before);
            assert(after.last() == (entries@[i as int].0@, entries@[i as int].1));
            assert(dirs_of(after) == if entries@[i as int].1 {
                dirs_of(before).push(entries@[i as int].0@)
            } else {
                dirs_of(before)
            });
        }
        if entries[i].1 {
            let q = quote_path(entries[i].0.as_str());
            out.push(q);
            proof {
                assert(dirs_of(after).map_values(|p: Seq<char>| quoted(p)) =~= dirs_of(
                    before,
                ).map_values(|p: Seq<char>| quoted(p)).push(quoted(entries@[i as int].0@)));
                assert(out@.map_values(|s: String| s@) =~= dirs_of(after).map_values(
                    |p: Seq<char>| quoted(p),
                ));
            }
        }
        i = i + 1;
    }
    proof {
        assert(entries@.subrange(0, entries@.len() as int) =~= entries@);
    }
    out
}

/// Joins quoted paths into the serialized listing `[a,b,...]`.
pub fn listing(paths: &Vec<String>) -> (r: String)
    ensures
        r@ == listing_spec(paths@.map_values(|s: String| s@)),
{
    proof {
        reveal_strlit("[");
        reveal_strlit("]");
    }
    let mut body = String::new();
    let mut i: usize = 0;
    while i < paths.len()
        invariant
            i <= paths@.len(),
            body@ == joined(paths@.subrange(0, i as int).map_values(|s: String| s@)),
        decreases paths@.len() - i,
    {
        let ghost items = paths@.subrange(0, i + 1).map_values(|s: String| s@);
        proof {
            assert(items.drop_last() =~= paths@.subrange(0, i as int).map_values(|s: String| s@));
        }
        proof {
            reveal_strlit(",");
            assert(","@ =~= seq![',']);
        }
        let ghost prev = body@;
        if i > 0 {
            body.append(",");
        }
        body.append(paths[i].as_str());
        proof {
            assert(items.last() == paths@[i as int]@);
            if i == 0 {
                assert(body@ =~= joined(items));
            } else {
                assert(joined(items) == joined(items.drop_last()) + seq![','] + items.last());
                assert(body@ =~= prev + seq![','] + paths@[i as int]@);
                assert(body@ =~= joined(items));
            }
        }
        i = i + 1;
    }
    proof {
        assert(paths@.subrange(0, paths@.len() as int) =~= paths@);
    }
    let mut out = String::from_str("[");
    out.append(body.as_str());
    out.append("]");
    proof {
        assert(out@ =~= listing_spec(paths@.map_values(|s: String| s@)));
    }
    out
}

/// Answers a discovery request over the entries of a fresh walk of the
/// tree: the listing of the directories for `topology`, and the literal
/// `Unsupported operation` for anything else.
pub fn topology_response(request: &str, entries: &Vec<(String, bool)>) -> (r: String)
    ensures
        r@ == response_spec(request@, entries_view(entries@)),
{
    match parse_request(request) {
        TopologyRequest::Topology => {
            let paths = quoted_dirs(entries);
            listing(&paths)
        },
        TopologyRequest::Unsupported => {
            proof {
                reveal_strlit("Unsupported operation");
            }
            String::from_str("Unsupported operation")
        },
    }
}

/// The listing holds a path exactly when the walk found it as a directory:
/// files never appear in it.
pub proof fn lemma_listing_exactly_dirs(entries: Seq<(Seq<char>, bool)>, p: Seq<char>)
    ensures
        dirs_of(entries).contains(p) <==> exists|i: int|
            0 <= i < entries.len() && #[trigger] entries[i] == (p, true),
    decreases entries.len(),
{
    if entries.len() > 0 {
        let rest = entries.drop_last();
        lemma_listing_exactly_dirs(rest, p);
        if dirs_of(entries).contains(p) {
            if !dirs_of(rest).contains(p) {
                let n = entries.len() - 1;
                assert(dirs_of(entries).last() == p);
                assert(entries[n] == (p, true));
            } else {
                let i = choose|i: int| 0 <= i < rest.len() && #[trigger] rest[i] == (p, true);
                assert(entries[i] == (p, true));
            }
        }
        if exists|i: int| 0 <= i < entries.len() && #[trigger] entries[i] == (p, true) {
            let i = choose|i: int| 0 <= i < entries.len() && #[trigger] entries[i] == (p, true);
            if i == entries.len() - 1 {
                assert(dirs_of(entries).last() == p);
            } else {
                assert(rest[i] == (p, true));
                let j = choose|j: int| 0 <= j < dirs_of(rest).len() && dirs_of(rest)[j] == p;
                assert(dirs_of(entries)[j] == p);
            }
        }
    }
}

} // verus!
