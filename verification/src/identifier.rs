//! Namespaced identifiers such as `minecraft:brand`: a lower-case
//! namespace and value, each drawn from a small character set.

use vstd::prelude::*;

verus! {

/// Characters allowed in a namespace: `[a-z0-9._-]`.
pub open spec fn valid_namespace_char(c: char) -> bool {
    ||| ('a' as u32) <= (c as u32) && (c as u32) <= ('z' as u32)
    ||| ('0' as u32) <= (c as u32) && (c as u32) <= ('9' as u32)
    ||| c == '.'
    ||| c == '_'
    ||| c == '-'
}

/// Characters allowed in a value: the namespace set plus `/`.
pub open spec fn valid_value_char(c: char) -> bool {
    valid_namespace_char(c) || c == '/'
}

/// A nonempty run of namespace characters.
pub open spec fn valid_namespace(s: Seq<char>) -> bool {
    s.len() > 0 && forall|i: int| 0 <= i < s.len() ==> valid_namespace_char(#[trigger] s[i])
}

/// A nonempty run of value characters.
pub open spec fn valid_value(s: Seq<char>) -> bool {
    s.len() > 0 && forall|i: int| 0 <= i < s.len() ==> valid_value_char(#[trigger] s[i])
}

/// A namespaced identifier, valid by construction.
#[derive(Debug, Clone, PartialEq, Eq, Hash)]
pub struct Identifier {
    namespace: String,
    value: String,
}

fn namespace_char_ok(c: char) -> (r: bool)
    ensures
        r == valid_namespace_char(c),
{
    let u: u32 = c as u32;
    (('a' as u32) <= u && u <= ('z' as u32)) || (('0' as u32) <= u && u <= ('9' as u32)) || c == '.'
        || c == '_' || c == '-'
}

fn namespace_ok(s: &str) -> (r: bool)
    ensures
        r == valid_namespace(s@),
{
    let n: usize = vstd::string::StrSliceExecFns::unicode_len(s);
    if n == 0 {
        return false;
    }
    let mut i: usize = 0;
    while i < n
        invariant
            n == s@.len(),
            i <= n,
            forall|j: int| 0 <= j < i ==> valid_namespace_char(#[trigger] s@[j]),
        decreases n - i,
    {
        let c: char = vstd::string::StrSliceExecFns::get_char(s, i);
        if !namespace_char_ok(c) {
            return false;
        }
        i = i + 1;
    }
    true
}

fn value_ok(s: &str) -> (r: bool)
    ensures
        r == valid_value(s@),
{
    let n: usize = vstd::string::StrSliceExecFns::unicode_len(s);
    if n == 0 {
        return false;
    }
    let mut i: usize = 0;
    while i < n
        invariant
            n == s@.len(),
            i <= n,
            forall|j: int| 0 <= j < i ==> valid_value_char(#[trigger] s@[j]),
        decreases n - i,
    {
        let c: char = vstd::string::StrSliceExecFns::get_char(s, i);
        if !(namespace_char_ok(c) || c == '/') {
            return false;
        }
        i = i + 1;
    }
    true
}

impl Identifier {
    /// The namespace part.
    pub closed spec fn spec_namespace(&self) -> Seq<char> {
        self.namespace@
    }

    /// The value part.
    pub closed spec fn spec_value(&self) -> Seq<char> {
        self.value@
    }

    /// Build an identifier, defaulting the namespace and checking both
    /// parts against their character sets; exactly the invalid part is
    /// named in the error.
    pub fn new(namespace: Option<&str>, value: &str) -> (r: Result<Identifier, String>)
        ensures
            ({
                let ns = match namespace {
                    Some(n) => n@,
                    None => "minecraft"@,
                };
                match r {
                    Ok(id) => valid_namespace(ns) && valid_value(value@) && id.spec_namespace()
                        == ns && id.spec_value() == value@,
                    Err(msg) => (!valid_namespace(ns) && msg@ == "Invalid namespace: '"@ + ns
                        + "'"@) || (valid_namespace(ns) && !valid_value(value@) && msg@
                        == "Invalid value: '"@ + value@ + "'"@),
                }
            }),
    {
        let ns: &str = match namespace {
            Some(n) => n,
            None => "minecraft",
        };
        if !namespace_ok(ns) {
            let mut msg: String = "Invalid namespace: '".to_owned();
            msg.append(ns);
            msg.append("'");
            proof {
                assert(msg@ =~= "Invalid namespace: '"@ + ns@ + "'"@);
            }
            return Err(msg);
        }
        if !value_ok(value) {
            let mut msg: String = "Invalid value: '".to_owned();
            msg.append(value);
            msg.append("'");
            proof {
                assert(msg@ =~= "Invalid value: '"@ + value@ + "'"@);
            }
            return Err(msg);
        }
        Ok(Identifier { namespace: ns.to_owned(), value: value.to_owned() })
    }

    /// The namespace part.
    pub fn namespace(&self) -> (r: &str)
        ensures
            r@ == self.spec_namespace(),
    {
        self.namespace.as_str()
    }

    /// The value part.
    pub fn value(&self) -> (r: &str)
        ensures
            r@ == self.spec_value(),
    {
        self.value.as_str()
    }
}

/// The index of the first colon in `s`, or its length if there is none.
pub open spec fn first_colon(s: Seq<char>) -> int
    decreases s.len(),
{
    if s.len() == 0 {
        0
    } else if s[0] == ':' {
        0
    } else {
        1 + first_colon(s.drop_first())
    }
}

proof fn lemma_first_colon(s: Seq<char>)
    ensures
        0 <= first_colon(s) <= s.len(),
        forall|j: int| 0 <= j < first_colon(s) ==> s[j] != ':',
        first_colon(s) < s.len() ==> s[first_colon(s)] == ':',
    decreases s.len(),
{
    if s.len() > 0 && s[0] != ':' {
        lemma_first_colon(s.drop_first());
        assert forall|j: int| 0 <= j < first_colon(s) implies s[j] != ':' by {
            if j > 0 {
                assert(s.drop_first()[j - 1] == s[j]);
            }
        }
        if first_colon(s) < s.len() {
            assert(s.drop_first()[first_colon(s) - 1] == s[first_colon(s)]);
        }
    }
}

impl Identifier {
    /// Parse `namespace:value`, splitting at the first colon; with no colon
    /// the namespace defaults.
    pub fn from_text(text: &str) -> (r: Result<Identifier, String>)
        ensures
            ({
                let cut = first_colon(text@);
                if cut < text@.len() {
                    match r {
                        Ok(id) => id.spec_namespace() == text@.subrange(0, cut)
                            && id.spec_value() == text@.subrange(cut + 1, text@.len() as int)
                            && valid_namespace(id.spec_namespace()) && valid_value(
                            id.spec_value(),
                        ),
                        Err(_) => !(valid_namespace(text@.subrange(0, cut)) && valid_value(
                            text@.subrange(cut + 1, text@.len() as int),
                        )),
                    }
                } else {
                    match r {
                        Ok(id) => id.spec_namespace() == "minecraft"@ && id.spec_value() == text@
                            && valid_namespace(id.spec_namespace()) && valid_value(
                            id.spec_value(),
                        ),
                        Err(_) => !(valid_namespace("minecraft"@) && valid_value(text@)),
                    }
                }
            }),
    {
        proof {
            lemma_first_colon(text@);
        }
        let n: usize = vstd::string::StrSliceExecFns::unicode_len(text);
        let mut found: bool = false;
        let mut i: usize = 0;
        while !found && i < n
            invariant
                n == text@.len(),
                i <= n,
                forall|j: int| 0 <= j < i ==> text@[j] != ':',
                found ==> i < n && text@[i as int] == ':',
            decreases 2 * (n - i) + (if found {
                0int
            } else {
                1int
            }),
        {
            let c: char = vstd::string::StrSliceExecFns::get_char(text, i);
            if c == ':' {
                found = true;
            } else {
                i = i + 1;
            }
        }
        if found {
            proof {
                assert(first_colon(text@) == i as int) by {
                    assert(text@[i as int] == ':');
                    if first_colon(text@) < i {
                        assert(text@[first_colon(text@)] != ':');
                    }
                    if first_colon(text@) > i {
                        assert(text@[i as int] != ':');
                    }
                }
            }
            let ns: &str = vstd::string::StrSliceExecFns::substring_char(text, 0, i);
            let value: &str = vstd::string::StrSliceExecFns::substring_char(text, i + 1, n);
            Identifier::new(Some(ns), value)
        } else {
            proof {
                assert(first_colon(text@) == text@.len());
            }
            Identifier::new(None, text)
        }
    }
}

} // verus!
