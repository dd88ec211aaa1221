//! What the local API answers, decided from plain request values: the
//! cross-origin handling of a request and the character names a query asks
//! for.
use crate::local_api::is_origin_allowed;
use crate::text::{eq_ignore_ascii_case, spec_eq_ignore_ascii_case};
use vstd::prelude::*;
use vstd::string::StrSliceExecFns;

verus! {

/// The version of the shape of the API's answers.
pub const SCHEMA_VERSION: u32 = 1u32;

/// The methods a preflight allows.
pub const PREFLIGHT_ALLOW_METHODS: &'static str = "GET, OPTIONS";

/// The request headers a preflight allows.
pub const PREFLIGHT_ALLOW_HEADERS: &'static str = "Authorization, Content-Type";

/// The `Vary` header of a preflight answer.
pub const PREFLIGHT_VARY: &'static str = "Origin, Access-Control-Request-Private-Network";

/// How a request is handled across origins. Every answer is marked
/// `Cache-Control: no-store`.
#[derive(Debug, Clone)]
pub enum CorsPlan {
    /// A preflight from an origin that is not allowed: answered 403.
    Forbidden,
    /// A preflight from an allowed origin: answered 204, reflecting the
    /// origin, and allowing private network access where it was asked for.
    Preflight { origin: String, allow_private_network: bool },
    /// Any other request: handled, and the origin reflected where it is
    /// allowed.
    Forward { reflect_origin: Option<String> },
}

/// Whether `origin` is given and listed in `allowed`.
pub open spec fn origin_listed(allowed: Seq<String>, origin: Option<Seq<char>>) -> bool {
    origin matches Some(o) && exists|i: int| 0 <= i < allowed.len() && (#[trigger] allowed[i])@ == o
}

/// The view of an optional text.
pub open spec fn opt_view(t: Option<&str>) -> Option<Seq<char>> {
    match t {
        Some(s) => Some(s@),
        None => None,
    }
}

/// How a request is handled across origins. `is_preflight` says whether it
/// is an `OPTIONS` request, `origin` is its `Origin` header and
/// `private_network` its `Access-Control-Request-Private-Network` header,
/// each where it is readable text; `allowed` lists the allowed origins.
/// Preflights never need the token.
pub fn plan_cors(is_preflight: bool, origin: Option<&str>, allowed: &[String], private_network: Option<&str>) -> (r: CorsPlan)
    ensures
        ({
            let listed = origin_listed(allowed@, opt_view(origin));
            if is_preflight {
                if listed {
                    r matches CorsPlan::Preflight { origin: o, allow_private_network } && o@ == opt_view(origin)->0
                        && allow_private_network == (private_network matches Some(v) && spec_eq_ignore_ascii_case(
                        v@,
                        "true"@,
                    ))
                } else {
                    r is Forbidden
                }
            } else {
                r matches CorsPlan::Forward { reflect_origin } && (if listed {
                    reflect_origin matches Some(o) && o@ == opt_view(origin)->0
                } else {
                    reflect_origin is None
                })
            }
        }),
{
    let listed = match origin {
        Some(o) => is_origin_allowed(allowed, o),
        None => false,
    };
    if is_preflight {
        if !listed {
            return CorsPlan::Forbidden;
        }
        let o = match origin {
            Some(o) => o.to_string(),
            None => String::new(),
        };
        let allow_private_network = match private_network {
            Some(v) => eq_ignore_ascii_case(v, "true"),
            None => false,
        };
        CorsPlan::Preflight { origin: o, allow_private_network }
    } else {
        let reflect_origin = if listed {
            match origin {
                Some(o) => Some(o.to_string()),
                None => None,
            }
        } else {
            None
        };
        CorsPlan::Forward { reflect_origin }
    }
}

/// Whether `c` is white space: the characters of the Unicode `White_Space`
/// property, which `char::is_whitespace` follows.
pub open spec fn is_white_space(c: char) -> bool {
    let u = c as u32;
    (0x09 <= u <= 0x0D) || u == 0x20 || u == 0x85 || u == 0xA0 || u == 0x1680 || (0x2000 <= u <= 0x200A) || u == 0x2028
        || u == 0x2029 || u == 0x202F || u == 0x205F || u == 0x3000
}

/// Whether `c` is white space.
fn char_is_whitespace(c: char) -> (r: bool)
    ensures
        r == is_white_space(c),
{
    let u = c as u32;
    (0x09 <= u && u <= 0x0D) || u == 0x20 || u == 0x85 || u == 0xA0 || u == 0x1680 || (0x2000 <= u && u <= 0x200A) || u
        == 0x2028 || u == 0x2029 || u == 0x202F || u == 0x205F || u == 0x3000
}

/// `s` without its leading white space.
pub open spec fn trim_start(s: Seq<char>) -> Seq<char>
    decreases s.len(),
{
    if s.len() > 0 && is_white_space(s[0]) {
        trim_start(s.drop_first())
    } else {
        s
    }
}

/// `s` without its trailing white space.
pub open spec fn trim_end(s: Seq<char>) -> Seq<char>
    decreases s.len(),
{
    if s.len() > 0 && is_white_space(s.last()) {
        trim_end(s.drop_last())
    } else {
        s
    }
}

/// `s` without its leading and trailing white space (as `str::trim`).
pub open spec fn trim(s: Seq<char>) -> Seq<char> {
    trim_end(trim_start(s))
}

/// The pieces of `s` between the commas (as `str::split(',')`): one more
/// than there are commas.
pub open spec fn comma_pieces(s: Seq<char>) -> Seq<Seq<char>>
    decreases s.len(),
{
    if s.len() == 0 {
        seq![Seq::<char>::empty()]
    } else {
        let rest = comma_pieces(s.drop_last());
        if s.last() == ',' {
            rest.push(Seq::empty())
        } else {
            rest.update(rest.len() - 1, rest.last().push(s.last()))
        }
    }
}

/// The names of a list: its trimmed pieces that are not empty.
pub open spec fn listed_names(pieces: Seq<Seq<char>>) -> Seq<Seq<char>>
    decreases pieces.len(),
{
    if pieces.len() == 0 {
        Seq::empty()
    } else {
        let rest = listed_names(pieces.drop_last());
        if trim(pieces.last()).len() > 0 {
            rest.push(trim(pieces.last()))
        } else {
            rest
        }
    }
}

/// The character names a query asks for: the comma separated names of its
/// `names` parameter, trimmed, without empty ones; none without the
/// parameter.
pub fn parse_character_names(names: Option<&str>) -> (r: Vec<String>)
    ensures
        r@.map_values(|n: String| n@) == (match names {
            Some(s) => listed_names(comma_pieces(s@)),
            None => Seq::empty(),
        }),
{
    let s = match names {
        Some(s) => s,
        None => {
            let r: Vec<String> = Vec::new();
            proof {
                assert(r@.map_values(|n: String| n@) =~= Seq::<Seq<char>>::empty());
            }
            return r;
        },
    };
    let n = s.unicode_len();
    let mut out: Vec<String> = Vec::new();
    let mut start: usize = 0;
    let mut i: usize = 0;
    let ghost mut done: Seq<Seq<char>> = Seq::empty();
    proof {
        assert(s@.subrange(0, 0) =~= Seq::<char>::empty());
    }
    while i < n
        invariant
            n == s@.len(),
            start <= i <= n,
            comma_pieces(s@.subrange(0, i as int)) == done.push(s@.subrange(start as int, i as int)),
            out@.map_values(|x: String| x@) == listed_names(done),
        decreases n - i,
    {
        let c = s.get_char(i);
        proof {
            let p = s@.subrange(0, i as int + 1);
            assert(p.drop_last() =~= s@.subrange(0, i as int));
            assert(p.last() == c);
        }
        if c == ',' {
            let piece = s.substring_char(start, i);
            push_trimmed(&mut out, piece);
            proof {
                lemma_listed_names_push(done, piece@);
                done = done.push(piece@);
                assert(s@.subrange(i as int + 1, i as int + 1) =~= Seq::<char>::empty());
            }
            start = i + 1;
        } else {
            proof {
                assert(s@.subrange(start as int, i as int + 1) =~= s@.subrange(start as int, i as int).push(c));
            }
        }
        i = i + 1;
    }
    let last = s.substring_char(start, n);
    push_trimmed(&mut out, last);
    proof {
        assert(s@.subrange(0, n as int) =~= s@);
        lemma_listed_names_push(done, last@);
    }
    out
}

/// `listed_names` of a list extended by one piece.
proof fn lemma_listed_names_push(pieces: Seq<Seq<char>>, piece: Seq<char>)
    ensures
        listed_names(pieces.push(piece)) == (if trim(piece).len() > 0 {
            listed_names(pieces).push(trim(piece))
        } else {
            listed_names(pieces)
        }),
{
    assert(pieces.push(piece).drop_last() =~= pieces);
}

/// Appends the trimmed `piece` to `out` where it is not empty.
fn push_trimmed(out: &mut Vec<String>, piece: &str)
    ensures
        final(out)@.map_values(|x: String| x@) == (if trim(piece@).len() > 0 {
            old(out)@.map_values(|x: String| x@).push(trim(piece@))
        } else {
            old(out)@.map_values(|x: String| x@)
        }),
{
    let t = trim_str(piece);
    if t.unicode_len() > 0 {
        out.push(t.to_string());
        proof {
            assert(final(out)@.map_values(|x: String| x@) =~= old(out)@.map_values(|x: String| x@).push(trim(piece@)));
        }
    }
}

/// `s` without its leading and trailing white space.
fn trim_str(s: &str) -> (r: &str)
    ensures
        r@ == trim(s@),
{
    let n = s.unicode_len();
    let mut a: usize = 0;
    proof {
        assert(s@.subrange(0, n as int) =~= s@);
    }
    while a < n && char_is_whitespace(s.get_char(a))
        invariant
            n == s@.len(),
            a <= n,
            trim_start(s@) == trim_start(s@.subrange(a as int, n as int)),
        decreases n - a,
    {
        proof {
            assert(s@.subrange(a as int, n as int).drop_first() =~= s@.subrange(a as int + 1, n as int));
        }
        a = a + 1;
    }
    proof {
        if a < n {
            assert(!is_white_space(s@.subrange(a as int, n as int)[0]));
        }
    }
    let mut b: usize = n;
    while b > a && char_is_whitespace(s.get_char(b - 1))
        invariant
            n == s@.len(),
            a <= b <= n,
            trim(s@) == trim_end(s@.subrange(a as int, b as int)),
        decreases b - a,
    {
        proof {
            assert(s@.subrange(a as int, b as int).drop_last() =~= s@.subrange(a as int, b as int - 1));
        }
        b = b - 1;
    }
    proof {
        if b > a {
            assert(!is_white_space(s@.subrange(a as int, b as int).last()));
        }
    }
    s.substring_char(a, b)
}

} // verus!
