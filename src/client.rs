use vstd::prelude::*;

use crate::edn_scan::{edn_admitted, is_edn_admitted};
use crate::codec::{decode_spec, new_opcode, new_path_envelope, parse_envelope, same_text, topic_of};

verus! {

/// The prefix topics a client subscribes to for the directories of a
/// discovery answer, one `NEW://<dir>` per directory, in the same order.
pub fn subscription_topics(dirs: &Vec<String>) -> (r: Vec<String>)
    ensures
        r@.len() == dirs@.len(),
        forall|i: int| 0 <= i < dirs@.len() ==> #[trigger] r@[i]@ == topic_of(new_opcode(), dirs@[i]@),
{
    let mut out: Vec<String> = Vec::new();
    let mut i: usize = 0;
    while i < dirs.len()
        invariant
            i <= dirs@.len(),
            out@.len() == i,
            forall|j: int| 0 <= j < i ==> #[trigger] out@[j]@ == topic_of(new_opcode(), dirs@[j]@),
        decreases dirs@.len() - i,
    {
        out.push(new_path_envelope(dirs[i].as_str()));
        i = i + 1;
    }
    out
}

/// The path that a public envelope announces as newly created, when its
/// opcode is `NEW`.
pub open spec fn new_entry_spec(envelope: Seq<char>) -> Option<Seq<char>> {
    match decode_spec(envelope) {
        Some((op, path)) => if op == new_opcode() {
            Some(path)
        } else {
            None
        },
        None => None,
    }
}

/// Reads a public envelope on the client side: the path of a `NEW` event;
/// `None` for a malformed envelope or another opcode.
pub fn new_entry_path(envelope: &str) -> (r: Option<String>)
    ensures
        r is None <==> new_entry_spec(envelope@) is None,
        r matches Some(path) ==> new_entry_spec(envelope@) == Some(path@),
{
    proof {
        reveal_strlit("NEW");
        assert("NEW"@ =~= new_opcode());
    }
    match parse_envelope(envelope) {
        Some((op, path)) => if same_text(op.as_str(), "NEW") {
            Some(path)
        } else {
            None
        },
        None => None,
    }
}

/// What the EDN reader makes of a text: `None` when the text holds no
/// form or its first form is malformed; `Some(None)` when that form is no
/// vector; else each item of the vector, as its text when it is a string.
pub uninterp spec fn edn_first_form(s: Seq<char>) -> Option<Option<Seq<Option<Seq<char>>>>>;

/// What the reader gave for the first form of a text.
pub enum EdnForm {
    /// No form, or a malformed one.
    Unreadable,
    /// A form that is no vector.
    NotVector,
    /// A vector: each item, as text when it is a string.
    Vector(Vec<Option<String>>),
}

/// The text of an optional string.
pub open spec fn opt_text(o: Option<String>) -> Option<Seq<char>> {
    match o {
        Some(t) => Some(t@),
        None => None,
    }
}

/// A form as plain values, in the shape of `edn_first_form`.
pub open spec fn form_view(f: EdnForm) -> Option<Option<Seq<Option<Seq<char>>>>> {
    match f {
        EdnForm::Unreadable => None,
        EdnForm::NotVector => Some(None),
        EdnForm::Vector(items) => Some(Some(items@.map_values(|i: Option<String>| opt_text(i)))),
    }
}

/// Relies on edn::parser::Parser::read: the first form of the text, which
/// depends on the text alone; `None` when there is none, an error when it
/// is malformed; a vector hands out each item, as text when it is a
/// string. The reader panics on some texts (a `-` before a closing
/// bracket, an integer out of range, an escape cut off at the end, ...);
/// `edn_admitted` leaves all of those out.
#[verifier::external_body]
fn read_edn_form(s: &str) -> (r: EdnForm)
    requires
        edn_admitted(s@),
    ensures
        form_view(r) == edn_first_form(s@),
{
    match edn::parser::Parser::new(s).read() {
        Some(Ok(edn::Value::Vector(items))) => EdnForm::Vector(
            items.into_iter().map(|i| match i {
                edn::Value::String(t) => Some(t),
                _ => None,
            }).collect(),
        ),
        Some(Ok(_)) => EdnForm::NotVector,
        _ => EdnForm::Unreadable,
    }
}

/// Why an EDN text gives no list of strings.
#[derive(Clone, Copy, Debug, PartialEq, Eq, Structural)]
pub enum EdnError {
    /// The text is not one that the reader is handed (see `edn_admitted`).
    Refused,
    /// The text holds no form, or a malformed one.
    Unreadable,
}

/// The strings of a vector: an item that is no string counts as the empty
/// string; a form that is no vector gives no strings.
pub open spec fn vector_strings_spec(form: Option<Option<Seq<Option<Seq<char>>>>>) -> Result<
    Seq<Seq<char>>,
    EdnError,
> {
    match form {
        Some(Some(v)) => Ok(
            v.map_values(
                |o: Option<Seq<char>>|
                    match o {
                        Some(t) => t,
                        None => Seq::<char>::empty(),
                    },
            ),
        ),
        Some(None) => Ok(seq![]),
        None => Err(EdnError::Unreadable),
    }
}

/// The strings of a result as plain values.
pub open spec fn strings_view(r: Result<Vec<String>, EdnError>) -> Result<Seq<Seq<char>>, EdnError> {
    match r {
        Ok(v) => Ok(v@.map_values(|s: String| s@)),
        Err(e) => Err(e),
    }
}

/// The strings of a vector's items: each string as it is, any other item
/// as the empty string.
pub open spec fn item_strings(texts: Seq<Option<Seq<char>>>) -> Seq<Seq<char>> {
    texts.map_values(
        |o: Option<Seq<char>>|
            match o {
                Some(t) => t,
                None => Seq::<char>::empty(),
            },
    )
}

/// The strings of what the EDN reader gave for a text.
pub fn vector_strings(form: EdnForm) -> (r: Result<Vec<String>, EdnError>)
    ensures
        strings_view(r) == vector_strings_spec(form_view(form)),
{
    match form {
        EdnForm::Vector(v) => {
            let mut out: Vec<String> = Vec::new();
            let ghost texts = v@.map_values(|i: Option<String>| opt_text(i));
            let ghost want = item_strings(texts);
            let mut i: usize = 0;
            while i < v.len()
                invariant
                    i <= v@.len(),
                    texts == v@.map_values(|i: Option<String>| opt_text(i)),
                    want == item_strings(texts),
                    out@.map_values(|s: String| s@) =~= want.subrange(0, i as int),
                decreases v@.len() - i,
            {
                let ghost w = want[i as int];
                let ghost prev = out@;
                proof {
                    assert(texts[i as int] == opt_text(v@[i as int]));
                }
                match &v[i] {
                    Some(t) => {
                        let c = t.clone();
                        proof {
                            assert(c@ == w);
                        }
                        out.push(c);
                    },
                    None => {
                        let e = String::new();
                        proof {
                            assert(e@ =~= w);
                        }
                        out.push(e);
                    },
                }
                proof {
                    assert(out@.map_values(|s: String| s@) =~= prev.map_values(|s: String| s@).push(
                        w,
                    ));
                    assert(out@.map_values(|s: String| s@) =~= want.subrange(0, i + 1));
                }
                i = i + 1;
            }
            proof {
                assert(want.subrange(0, v@.len() as int) =~= want);
                assert(want =~= vector_strings_spec(Some(Some(texts)))->Ok_0);
            }
            Ok(out)
        },
        EdnForm::NotVector => {
            let out: Vec<String> = Vec::new();
            proof {
                assert(out@.map_values(|t: String| t@) =~= seq![]);
            }
            Ok(out)
        },
        EdnForm::Unreadable => Err(EdnError::Unreadable),
    }
}

/// Reads the discovery answer, an EDN vector of strings, into its strings.
/// A first form that is no vector gives no strings; a text with no form or
/// a malformed one is `Unreadable`, and a text that the reader is not
/// handed is `Refused`.
pub fn parse_edn_vector(s: &str) -> (r: Result<Vec<String>, EdnError>)
    ensures
        strings_view(r) == if edn_admitted(s@) {
            vector_strings_spec(edn_first_form(s@))
        } else {
            Err(EdnError::Refused)
        },
{
    if is_edn_admitted(s) {
        let form = read_edn_form(s);
        vector_strings(form)
    } else {
        Err(EdnError::Refused)
    }
}

} // verus!
