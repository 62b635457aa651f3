//! The routing table: which verb and path reach which handler. Paths are
//! matched on their UTF-8 bytes; a row-addressed path carries an id
//! segment that must denote an integer the service's id type can hold.
//! A user-addressed path whose id segment does not parse is a client
//! error: the table upstream left that case open, and answering 400 for it
//! is this table's deliberate resolution.

use vstd::prelude::*;

verus! {

/// The verbs the table routes.
#[derive(Clone, Copy, Debug, PartialEq, Eq, Structural)]
pub enum Method {
    Get,
    Post,
    Put,
    Delete,
}

/// One row of the routing table, with the id already bound for the
/// row-addressed operations.
#[derive(Clone, Copy, Debug, PartialEq, Eq, Structural)]
pub enum Route {
    /// `GET /` — the greeting.
    Root,
    /// `GET /users/` — list.
    List,
    /// `POST /users/` — create.
    Create,
    /// `GET /users/{id}` — get.
    Get(i32),
    /// `PUT /users/{id}` — update.
    Update(i32),
    /// `DELETE /users/{id}` — delete.
    Delete(i32),
}

/// Where a request lands.
#[derive(Clone, Copy, Debug, PartialEq, Eq, Structural)]
pub enum RouteOutcome {
    /// A row of the table matched.
    Matched(Route),
    /// The path addresses a user row, but its id segment does not denote a
    /// storable integer: a client error, answered with 400.
    BadId,
    /// No row of the table matches.
    NoRoute,
}

pub const SLASH: u8 = 47;

pub const PLUS: u8 = 43;

pub const MINUS: u8 = 45;

pub const DIGIT_ZERO: u8 = 48;

pub const DIGIT_NINE: u8 = 57;

pub const LETTER_U: u8 = 117;

pub const LETTER_S: u8 = 115;

pub const LETTER_E: u8 = 101;

pub const LETTER_R: u8 = 114;

pub open spec fn is_digit(b: u8) -> bool {
    DIGIT_ZERO <= b <= DIGIT_NINE
}

pub open spec fn digit_val(b: u8) -> int {
    b - DIGIT_ZERO
}

pub open spec fn all_digits(s: Seq<u8>) -> bool {
    forall|i: int| 0 <= i < s.len() ==> is_digit(#[trigger] s[i])
}

/// The value of a digit string read in base ten.
pub open spec fn digits_value(s: Seq<u8>) -> int
    decreases s.len(),
{
    if s.len() == 0 {
        0
    } else {
        10 * digits_value(s.drop_last()) + digit_val(s.last())
    }
}

pub open spec fn has_sign(s: Seq<u8>) -> bool {
    s.len() > 0 && (s[0] == PLUS || s[0] == MINUS)
}

pub open spec fn digits_part(s: Seq<u8>) -> Seq<u8> {
    if has_sign(s) {
        s.drop_first()
    } else {
        s
    }
}

/// The grammar of a signed decimal integer: an optional sign, then at
/// least one digit.
pub open spec fn is_int_literal(s: Seq<u8>) -> bool {
    digits_part(s).len() > 0 && all_digits(digits_part(s))
}

/// The value a well-formed literal denotes.
pub open spec fn int_literal_value(s: Seq<u8>) -> int {
    if has_sign(s) && s[0] == MINUS {
        -digits_value(digits_part(s))
    } else {
        digits_value(digits_part(s))
    }
}

/// Whether the segment denotes an id the service's id type can hold.
pub open spec fn is_id_segment(s: Seq<u8>) -> bool {
    is_int_literal(s) && i32::MIN <= int_literal_value(s) <= i32::MAX
}

proof fn lemma_digits_value_nonneg(s: Seq<u8>)
    requires
        all_digits(s),
    ensures
        digits_value(s) >= 0,
    decreases s.len(),
{
    if s.len() > 0 {
        assert forall|i: int| 0 <= i < s.drop_last().len() implies is_digit(
            #[trigger] s.drop_last()[i],
        ) by {
            assert(s.drop_last()[i] == s[i]);
        }
        lemma_digits_value_nonneg(s.drop_last());
    }
}

/// Reading more digits never shrinks the value.
proof fn lemma_digits_value_monotone(s: Seq<u8>, i: int, j: int)
    requires
        all_digits(s),
        0 <= i <= j <= s.len(),
    ensures
        digits_value(s.subrange(0, i)) <= digits_value(s.subrange(0, j)),
    decreases j - i,
{
    if i < j {
        lemma_digits_value_monotone(s, i, j - 1);
        let pre = s.subrange(0, j - 1);
        let cur = s.subrange(0, j);
        assert(cur.drop_last() =~= pre);
        assert forall|k: int| 0 <= k < pre.len() implies is_digit(#[trigger] pre[k]) by {
            assert(pre[k] == s[k]);
        }
        lemma_digits_value_nonneg(pre);
        assert(cur.last() == s[j - 1]);
        assert(is_digit(s[j - 1]));
    }
}

/// Parses a path segment as the service's id type: an optional sign, then
/// at least one digit, denoting a value the type can hold. Anything else
/// is nothing — exactly the inputs on which the table answers 400.
pub fn parse_id(s: &[u8]) -> (r: Option<i32>)
    ensures
        match r {
            Some(v) => is_id_segment(s@) && v as int == int_literal_value(s@),
            None => !is_id_segment(s@),
        },
{
    let n = s.len();
    if n == 0 {
        return None;
    }
    let negative: bool = s[0] == MINUS;
    let start: usize = if s[0] == PLUS || s[0] == MINUS {
        1
    } else {
        0
    };
    if start == n {
        return None;
    }
    let ghost d = digits_part(s@);
    proof {
        assert(d =~= s@.subrange(start as int, n as int));
    }
    let mut acc: i64 = 0;
    let mut i: usize = start;
    while i < n
        invariant
            start <= i <= n,
            n == s@.len(),
            start as int == if has_sign(s@) { 1int } else { 0int },
            negative == (has_sign(s@) && s@[0] == MINUS),
            d == digits_part(s@),
            d == s@.subrange(start as int, n as int),
            all_digits(s@.subrange(start as int, i as int)),
            0 <= acc <= 2147483648,
            acc as int == digits_value(s@.subrange(start as int, i as int)),
        decreases n - i,
    {
        let b = s[i];
        if b < DIGIT_ZERO || b > DIGIT_NINE {
            proof {
                assert(d[i - start as int] == s@[i as int]);
                assert(!all_digits(d));
            }
            return None;
        }
        acc = acc * 10 + ((b - DIGIT_ZERO) as i64);
        proof {
            let pre = s@.subrange(start as int, i as int);
            let cur = s@.subrange(start as int, i as int + 1);
            assert(cur.drop_last() =~= pre);
            assert(cur.last() == s@[i as int]);
            assert forall|k: int| 0 <= k < cur.len() implies is_digit(#[trigger] cur[k]) by {
                assert(cur[k] == s@[k + start as int]);
            }
        }
        if acc > 2147483648i64 {
            proof {
                if all_digits(d) {
                    let cut = i as int + 1 - start as int;
                    assert(s@.subrange(start as int, i as int + 1) =~= d.subrange(0, cut));
                    assert(d =~= d.subrange(0, d.len() as int));
                    lemma_digits_value_monotone(d, cut, d.len() as int);
                }
            }
            return None;
        }
        i = i + 1;
    }
    proof {
        assert(s@.subrange(start as int, n as int) == d);
        assert(is_int_literal(s@));
        assert(acc as int == digits_value(d));
    }
    if negative {
        Some((-acc) as i32)
    } else {
        if acc > 2147483647i64 {
            return None;
        }
        Some(acc as i32)
    }
}

pub open spec fn root_path() -> Seq<u8> {
    seq![SLASH]
}

pub open spec fn users_path() -> Seq<u8> {
    seq![SLASH, LETTER_U, LETTER_S, LETTER_E, LETTER_R, LETTER_S, SLASH]
}

pub open spec fn no_slash(s: Seq<u8>) -> bool {
    forall|i: int| 0 <= i < s.len() ==> (#[trigger] s[i]) != SLASH
}

/// The routing table: the six rows the service serves, `BadId` where the
/// path addresses a user row whose id segment does not denote a storable
/// integer, and `NoRoute` for everything else.
pub open spec fn route_spec(m: Method, p: Seq<u8>) -> RouteOutcome {
    if p == root_path() {
        if m is Get {
            RouteOutcome::Matched(Route::Root)
        } else {
            RouteOutcome::NoRoute
        }
    } else if p == users_path() {
        match m {
            Method::Get => RouteOutcome::Matched(Route::List),
            Method::Post => RouteOutcome::Matched(Route::Create),
            _ => RouteOutcome::NoRoute,
        }
    } else if p.len() > 7 && p.subrange(0, 7) == users_path() {
        let rest = p.skip(7);
        if !no_slash(rest) {
            RouteOutcome::NoRoute
        } else if is_id_segment(rest) {
            let id = int_literal_value(rest) as i32;
            match m {
                Method::Get => RouteOutcome::Matched(Route::Get(id)),
                Method::Put => RouteOutcome::Matched(Route::Update(id)),
                Method::Delete => RouteOutcome::Matched(Route::Delete(id)),
                Method::Post => RouteOutcome::NoRoute,
            }
        } else {
            RouteOutcome::BadId
        }
    } else {
        RouteOutcome::NoRoute
    }
}

/// Whether the path begins with the user-collection prefix.
fn has_users_prefix(p: &[u8]) -> (r: bool)
    ensures
        r == (p@.len() >= 7 && p@.subrange(0, 7) == users_path()),
{
    if p.len() < 7 {
        return false;
    }
    let r = p[0] == SLASH && p[1] == LETTER_U && p[2] == LETTER_S && p[3] == LETTER_E && p[4] == LETTER_R && p[5]
        == LETTER_S && p[6] == SLASH;
    proof {
        if r {
            assert(p@.subrange(0, 7) =~= users_path());
        } else {
            if p@.subrange(0, 7) == users_path() {
                assert forall|k: int| 0 <= k < 7 implies p@[k] == users_path()[k] by {
                    assert(p@.subrange(0, 7)[k] == p@[k]);
                }
            }
        }
    }
    r
}

fn contains_slash(s: &[u8]) -> (r: bool)
    ensures
        r == !no_slash(s@),
{
    let n = s.len();
    let mut i: usize = 0;
    while i < n
        invariant
            i <= n,
            n == s@.len(),
            forall|j: int| 0 <= j < i ==> (#[trigger] s@[j]) != SLASH,
        decreases n - i,
    {
        if s[i] == SLASH {
            return true;
        }
        i = i + 1;
    }
    false
}

/// Selects the handler for a verb and a path, exactly as the table says.
pub fn route(method: Method, path: &[u8]) -> (r: RouteOutcome)
    ensures
        r == route_spec(method, path@),
{
    let n = path.len();
    if n == 1 && path[0] == SLASH {
        proof {
            assert(path@ =~= root_path());
        }
        return match method {
            Method::Get => RouteOutcome::Matched(Route::Root),
            _ => RouteOutcome::NoRoute,
        };
    }
    proof {
        if path@ == root_path() {
            assert(path@.len() == 1);
            assert(path@[0] == root_path()[0]);
        }
    }
    if !has_users_prefix(path) {
        proof {
            if path@ == users_path() {
                assert(path@.subrange(0, 7) =~= users_path());
            }
        }
        return RouteOutcome::NoRoute;
    }
    if n == 7 {
        proof {
            assert(path@ =~= path@.subrange(0, 7));
        }
        return match method {
            Method::Get => RouteOutcome::Matched(Route::List),
            Method::Post => RouteOutcome::Matched(Route::Create),
            _ => RouteOutcome::NoRoute,
        };
    }
    proof {
        if path@ == users_path() {
            assert(path@.len() == 7);
        }
    }
    let rest = &path[7..n];
    proof {
        assert(rest@ == path@.skip(7));
    }
    if contains_slash(rest) {
        return RouteOutcome::NoRoute;
    }
    match parse_id(rest) {
        Some(id) => match method {
            Method::Get => RouteOutcome::Matched(Route::Get(id)),
            Method::Put => RouteOutcome::Matched(Route::Update(id)),
            Method::Delete => RouteOutcome::Matched(Route::Delete(id)),
            Method::Post => RouteOutcome::NoRoute,
        },
        None => RouteOutcome::BadId,
    }
}

} // verus!
