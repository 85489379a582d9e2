//! Actions encoded in the identifiers of interactive components: an
//! identifier that ends in `{kind:argument}`, where the kind is made of digits
//! and the argument of ASCII letters and digits, carries one action.
use vstd::prelude::*;

use crate::text::{chars_of, string_of};

verus! {

pub open spec fn is_digit(c: char) -> bool {
    '0' <= c && c <= '9'
}

pub open spec fn is_alnum(c: char) -> bool {
    is_digit(c) || ('a' <= c && c <= 'z') || ('A' <= c && c <= 'Z')
}

/// `s` ends in `{kind:argument}`, with the `{` at `i` and the `:` at `c`.
pub open spec fn action_suffix(s: Seq<char>, i: int, c: int) -> bool {
    &&& 0 <= i
    &&& i + 1 < c
    &&& c + 2 < s.len()
    &&& s[i] == '{'
    &&& s[c] == ':'
    &&& s[s.len() - 1] == '}'
    &&& forall|k: int| i < k < c ==> is_digit(#[trigger] s[k])
    &&& forall|k: int| c < k < s.len() - 1 ==> is_alnum(#[trigger] s[k])
}

/// The number that a string of decimal digits spells.
pub open spec fn decimal_value(s: Seq<char>) -> nat
    decreases s.len(),
{
    if s.len() == 0 {
        0
    } else {
        decimal_value(s.drop_last()) * 10 + (s.last() as nat - '0' as nat) as nat
    }
}

pub open spec fn all_digits(s: Seq<char>) -> bool {
    forall|k: int| 0 <= k < s.len() ==> is_digit(#[trigger] s[k])
}

/// A first-party action.
pub enum MessageAction {
    /// A kind that is not known.
    Unknown,
    /// Kind `0`: respond with the saved message whose id is the argument.
    ResponseSavedMessage { message_id: String },
    /// Kind `1`: give or take the role whose id the argument spells.
    RoleToggle { role_id: u64 },
}

/// `a` is the action of this kind and argument.
pub open spec fn action_is(a: MessageAction, kind: Seq<char>, arg: Seq<char>) -> bool {
    if kind == seq!['0'] {
        a is ResponseSavedMessage && a->message_id@ == arg
    } else if kind == seq!['1'] && all_digits(arg) && decimal_value(arg) <= u64::MAX {
        a == MessageAction::RoleToggle { role_id: decimal_value(arg) as u64 }
    } else {
        a is Unknown
    }
}

proof fn lemma_decimal_prefix_le(s: Seq<char>, k: int)
    requires
        0 <= k <= s.len(),
        all_digits(s),
    ensures
        decimal_value(s.take(k)) <= decimal_value(s),
    decreases s.len() - k,
{
    if k < s.len() {
        lemma_decimal_prefix_le(s, k + 1);
        assert(s.take(k + 1).drop_last() =~= s.take(k));
        let v = decimal_value(s.take(k));
        let d = (s[k] as nat - '0' as nat) as nat;
        assert(v <= v * 10 + d) by (nonlinear_arith);
    } else {
        assert(s.take(k) =~= s);
    }
}

/// The number spelled by `s[lo..hi]`, where it is all digits and fits.
fn parse_decimal(s: &Vec<char>, lo: usize, hi: usize) -> (r: Option<u64>)
    requires
        lo <= hi <= s@.len(),
    ensures
        ({
            let t = s@.subrange(lo as int, hi as int);
            &&& r is Some <==> (all_digits(t) && decimal_value(t) <= u64::MAX)
            &&& r is Some ==> r->0 == decimal_value(t)
        }),
{
    let ghost t = s@.subrange(lo as int, hi as int);
    let mut acc: u64 = 0;
    let mut k = lo;
    while k < hi
        invariant
            lo <= k <= hi <= s@.len(),
            t == s@.subrange(lo as int, hi as int),
            all_digits(t.take(k - lo)),
            acc == decimal_value(t.take(k - lo)),
        decreases hi - k,
    {
        let ch = s[k];
        proof {
            assert(t.take(k + 1 - lo).drop_last() =~= t.take(k - lo));
            assert(t[k - lo] == ch);
        }
        if ch < '0' || ch > '9' {
            proof {
                assert(!is_digit(t[k - lo]));
            }
            return None;
        }
        let d = (ch as u32 - '0' as u32) as u64;
        if acc > (u64::MAX - d) / 10 {
            proof {
                assert(acc * 10 + d > u64::MAX) by (nonlinear_arith)
                    requires
                        acc > (u64::MAX - d) / 10,
                        d <= 9,
                ;
                assert(decimal_value(t.take(k + 1 - lo)) == acc * 10 + d);
                if all_digits(t) {
                    lemma_decimal_prefix_le(t, k + 1 - lo);
                }
            }
            return None;
        }
        proof {
            assert(acc * 10 + d <= u64::MAX) by (nonlinear_arith)
                requires
                    acc <= (u64::MAX - d) / 10,
                    d <= 9,
            ;
        }
        acc = acc * 10 + d;
        proof {
            assert(all_digits(t.take(k + 1 - lo)));
        }
        k += 1;
    }
    proof {
        assert(t.take(hi - lo) =~= t);
    }
    Some(acc)
}

impl MessageAction {
    /// The actions that a component identifier carries: one where it ends in
    /// `{kind:argument}`, else none.
    pub fn parse(value: &str) -> (r: Vec<MessageAction>)
        ensures
            r@.len() <= 1,
            r@.len() == 1 <==> exists|i: int, c: int| action_suffix(value@, i, c),
            forall|i: int, c: int|
                action_suffix(value@, i, c) ==> action_is(
                    r@[0],
                    value@.subrange(i + 1, c),
                    value@.subrange(c + 1, value@.len() - 1),
                ),
    {
        let s = chars_of(value);
        let n = s.len();
        let mut none: Vec<MessageAction> = Vec::new();
        if n < 5 || s[n - 1] != '}' {
            proof {
                assert forall|i: int, c: int| !action_suffix(value@, i, c) by {}
            }
            return none;
        }
        // the argument: the run of letters and digits before the closing brace
        let mut j: usize = n - 1;
        while j > 0 && (('0' <= s[j - 1] && s[j - 1] <= '9') || ('a' <= s[j - 1] && s[j - 1] <= 'z')
            || ('A' <= s[j - 1] && s[j - 1] <= 'Z'))
            invariant
                j <= n - 1,
                n == s@.len(),
                forall|k: int| j <= k < n - 1 ==> is_alnum(#[trigger] s@[k]),
            decreases j,
        {
            j -= 1;
        }
        if j == 0 || j == n - 1 || s[j - 1] != ':' {
            proof {
                assert forall|i: int, c: int| !action_suffix(value@, i, c) by {
                    if action_suffix(value@, i, c) {
                        if c < j - 1 {
                            assert(is_alnum(s@[j - 1]));
                        } else if c > j - 1 {
                            assert(is_alnum(s@[c]));
                        }
                    }
                }
            }
            return none;
        }
        let c = j - 1;
        // the kind: the run of digits before the colon
        let mut m: usize = c;
        while m > 0 && '0' <= s[m - 1] && s[m - 1] <= '9'
            invariant
                m <= c,
                c < n,
                n == s@.len(),
                forall|k: int| m <= k < c ==> is_digit(#[trigger] s@[k]),
            decreases m,
        {
            m -= 1;
        }
        proof {
            assert forall|i2: int, c2: int| action_suffix(value@, i2, c2) implies c2 == c by {
                if c2 < c {
                    assert(is_alnum(s@[c as int]));
                } else if c2 > c {
                    assert(is_alnum(s@[c2]));
                }
            }
        }
        if m == 0 || m == c || s[m - 1] != '{' {
            proof {
                assert forall|i: int, c2: int| !action_suffix(value@, i, c2) by {
                    if action_suffix(value@, i, c2) {
                        assert(c2 == c);
                        if i < m - 1 {
                            assert(is_digit(s@[m - 1]));
                        } else if i > m - 1 {
                            assert(is_digit(s@[i]));
                        }
                    }
                }
            }
            return none;
        }
        let i = m - 1;
        proof {
            assert(action_suffix(value@, i as int, c as int));
            assert forall|i2: int, c2: int| action_suffix(value@, i2, c2) implies i2 == i && c2
                == c by {
                assert(c2 == c);
                if i2 < i {
                    assert(is_digit(s@[i as int]));
                } else if i2 > i {
                    assert(is_digit(s@[i2]));
                }
            }
        }
        let action = if c - i == 2 && s[i + 1] == '0' {
            let mut arg: Vec<char> = Vec::new();
            crate::text::push_range(&mut arg, &s, c + 1, n - 1);
            proof {
                assert(arg@ =~= s@.subrange(c + 1, n - 1));
                assert(s@.subrange(i + 1, c as int) =~= seq!['0']);
            }
            let a = MessageAction::ResponseSavedMessage { message_id: string_of(&arg) };
            assert(action_is(a, s@.subrange(i + 1, c as int), s@.subrange(c + 1, n - 1)));
            a
        } else if c - i == 2 && s[i + 1] == '1' {
            proof {
                assert(s@.subrange(i + 1, c as int) =~= seq!['1']);
                assert(s@.subrange(i + 1, c as int) != seq!['0']) by {
                    assert(s@.subrange(i + 1, c as int)[0] == '1');
                    assert(seq!['0'][0] == '0');
                }
            }
            let a = match parse_decimal(&s, c + 1, n - 1) {
                Some(id) => MessageAction::RoleToggle { role_id: id },
                None => MessageAction::Unknown,
            };
            assert(action_is(a, s@.subrange(i + 1, c as int), s@.subrange(c + 1, n - 1)));
            a
        } else {
            proof {
                let kind = s@.subrange(i + 1, c as int);
                if c - i == 2 {
                    assert(kind[0] == s@[i + 1]);
                } else {
                    assert(kind.len() != 1);
                }
                assert(kind != seq!['0'] && kind != seq!['1']);
                assert(action_is(MessageAction::Unknown, kind, s@.subrange(c + 1, n - 1)));
            }
            MessageAction::Unknown
        };
        assert(action_is(action, s@.subrange(i + 1, c as int), s@.subrange(c + 1, n - 1)));
        let mut r: Vec<MessageAction> = Vec::new();
        r.push(action);
        assert(r@[0] == action);
        r
    }
}

} // verus!
