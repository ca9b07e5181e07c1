//! Small helpers on names and text.

use vstd::prelude::*;

verus! {

/// Holds of the hyphen.
pub open spec fn is_hyphen() -> spec_fn(char) -> bool {
    |c: char| c == '-'
}

/// The part of `name` before its first hyphen; all of it if it has none.
pub open spec fn creep_type_of(name: Seq<char>) -> Seq<char> {
    match first_where(name, is_hyphen()) {
        Some(i) => name.take(i),
        None => name,
    }
}

/// Archetype of an agent: its name up to the first hyphen.
pub fn get_creep_type(name: &str) -> (creep_type: String)
    ensures
        creep_type@ == creep_type_of(name@),
{
    let n = name.unicode_len();
    let mut end: usize = 0;
    while end < n && name.get_char(end) != '-'
        invariant
            n == name@.len(),
            end <= n,
            forall|j: int| 0 <= j < end ==> !is_hyphen()(#[trigger] name@[j]),
        decreases n - end,
    {
        end += 1;
    }
    proof {
        if end < n {
            lemma_first_where_found(name@, is_hyphen(), end as int);
        } else {
            lemma_first_where_none(name@, is_hyphen());
            assert(name@.take(n as int) =~= name@);
        }
        assert(name@.subrange(0, end as int) =~= name@.take(end as int));
    }
    String::from_str(name.substring_char(0, end))
}

/// Whether the controller of `room` belongs to the colony.
pub fn is_mine(room: &crate::metadata::RoomInfo) -> (mine: bool)
    ensures
        mine == room.is_mine_spec(),
{
    room.is_mine()
}

/// The room that `room_name_str` names, if it names one.
pub fn get_room_name(room_name_str: &str) -> (room: Option<crate::position::RoomName>)
    ensures
        room == crate::position::RoomName::parse_spec(room_name_str@),
{
    crate::position::RoomName::new(room_name_str)
}

/// Whether two texts hold the same characters.
pub fn str_eq(a: &str, b: &str) -> (same: bool)
    ensures
        same == (a@ == b@),
{
    let x = String::from_str(a);
    let y = String::from_str(b);
    x == y
}

/// `i` is the first index of `s` whose item satisfies `p`.
pub open spec fn is_first_where<T>(s: Seq<T>, p: spec_fn(T) -> bool, i: int) -> bool {
    &&& 0 <= i < s.len()
    &&& p(s[i])
    &&& forall|j: int| 0 <= j < i ==> !p(#[trigger] s[j])
}

/// The first index of `s` whose item satisfies `p`, if there is one.
pub open spec fn first_where<T>(s: Seq<T>, p: spec_fn(T) -> bool) -> Option<int> {
    if exists|i: int| is_first_where(s, p, i) {
        Some(choose|i: int| is_first_where(s, p, i))
    } else {
        None
    }
}

/// A first index is the first index.
pub proof fn lemma_first_where_found<T>(s: Seq<T>, p: spec_fn(T) -> bool, i: int)
    requires
        is_first_where(s, p, i),
    ensures
        first_where(s, p) == Some(i),
{
    let k = choose|k: int| is_first_where(s, p, k);
    if k < i {
        assert(!p(s[k]));
    } else if i < k {
        assert(!p(s[i]));
    }
}

/// Where no item satisfies `p` there is no first index.
pub proof fn lemma_first_where_none<T>(s: Seq<T>, p: spec_fn(T) -> bool)
    requires
        forall|j: int| 0 <= j < s.len() ==> !p(#[trigger] s[j]),
    ensures
        first_where(s, p) is None,
{
}

/// What `first_where` finds satisfies `p`, and nothing before it does.
pub proof fn lemma_first_where_is_first<T>(s: Seq<T>, p: spec_fn(T) -> bool)
    ensures
        first_where(s, p) matches Some(i) ==> is_first_where(s, p, i),
        first_where(s, p) is None ==> forall|j: int| 0 <= j < s.len() ==> !p(#[trigger] s[j]),
{
    if first_where(s, p) is None {
        assert forall|j: int| 0 <= j < s.len() implies !p(#[trigger] s[j]) by {
            if p(s[j]) {
                lemma_some_first_exists(s, p, j);
            }
        }
    }
}

/// If some item satisfies `p`, some index is the first to do so.
proof fn lemma_some_first_exists<T>(s: Seq<T>, p: spec_fn(T) -> bool, j: int)
    requires
        0 <= j < s.len(),
        p(s[j]),
    ensures
        exists|i: int| is_first_where(s, p, i),
    decreases j,
{
    if exists|k: int| 0 <= k < j && p(s[k]) {
        let k = choose|k: int| 0 <= k < j && p(s[k]);
        lemma_some_first_exists(s, p, k);
    } else {
        assert(is_first_where(s, p, j));
    }
}

/// `i` is an admitted index with the least key, and the first such index.
pub open spec fn is_first_min(eligible: Seq<bool>, keys: Seq<u64>, i: int) -> bool {
    &&& 0 <= i < keys.len()
    &&& eligible[i]
    &&& forall|j: int| 0 <= j < keys.len() && #[trigger] eligible[j] ==> keys[i] <= keys[j]
    &&& forall|j: int| 0 <= j < i && #[trigger] eligible[j] ==> keys[i] < keys[j]
}

/// The first of the admitted indices with the least key, if any index is admitted.
pub open spec fn first_min_spec(eligible: Seq<bool>, keys: Seq<u64>) -> Option<int> {
    if exists|i: int| is_first_min(eligible, keys, i) {
        Some(choose|i: int| is_first_min(eligible, keys, i))
    } else {
        None
    }
}

/// There is at most one first least index.
pub proof fn lemma_first_min_unique(eligible: Seq<bool>, keys: Seq<u64>, i: int)
    requires
        eligible.len() == keys.len(),
        is_first_min(eligible, keys, i),
    ensures
        first_min_spec(eligible, keys) == Some(i),
{
    let k = choose|k: int| is_first_min(eligible, keys, k);
    assert(keys[i] <= keys[k] && keys[k] <= keys[i]);
    if k < i {
        assert(keys[i] < keys[k]);
    } else if i < k {
        assert(keys[k] < keys[i]);
    }
}

/// What `first_min_spec` gives is admitted, least and first; it gives
/// nothing only where nothing is admitted.
pub proof fn lemma_first_min_is_min(eligible: Seq<bool>, keys: Seq<u64>)
    requires
        eligible.len() == keys.len(),
    ensures
        first_min_spec(eligible, keys) matches Some(i) ==> is_first_min(eligible, keys, i),
        first_min_spec(eligible, keys) is None ==> forall|j: int|
            0 <= j < eligible.len() ==> !#[trigger] eligible[j],
{
    if first_min_spec(eligible, keys) is None {
        assert forall|j: int| 0 <= j < eligible.len() implies !#[trigger] eligible[j] by {
            if eligible[j] {
                lemma_first_min_exists(eligible, keys, eligible.len() as int);
            }
        }
    }
}

/// Among the first `n` indices, if one is admitted, one is the first least.
proof fn lemma_first_min_exists(eligible: Seq<bool>, keys: Seq<u64>, n: int)
    requires
        eligible.len() == keys.len(),
        0 <= n <= keys.len(),
    ensures
        (exists|j: int| 0 <= j < n && eligible[j]) ==> exists|i: int|
            is_first_min(eligible.take(n), keys.take(n), i),
        n == keys.len() && (exists|j: int| 0 <= j < n && eligible[j]) ==> exists|i: int|
            is_first_min(eligible, keys, i),
    decreases n,
{
    if n > 0 {
        lemma_first_min_exists(eligible, keys, n - 1);
        let e0 = eligible.take(n - 1);
        let k0 = keys.take(n - 1);
        let e1 = eligible.take(n);
        let k1 = keys.take(n);
        if exists|j: int| 0 <= j < n - 1 && eligible[j] {
            let b = choose|i: int| is_first_min(e0, k0, i);
            assert forall|j: int| 0 <= j < n - 1 && #[trigger] e1[j] implies k0[b] <= k1[j] by {
                assert(e0[j]);
                assert(k0[j] == k1[j]);
            }
            if eligible[n - 1] && keys[n - 1] < keys[b] {
                assert forall|j: int| 0 <= j < n - 1 && #[trigger] e1[j] implies k1[n - 1]
                    < k1[j] by {
                    assert(e0[j]);
                    assert(k0[j] == k1[j]);
                }
                assert(is_first_min(e1, k1, n - 1));
            } else {
                assert forall|j: int| 0 <= j < b && #[trigger] e1[j] implies k1[b] < k1[j] by {
                    assert(e0[j]);
                    assert(k0[j] == k1[j]);
                }
                assert(is_first_min(e1, k1, b));
            }
        } else if eligible[n - 1] {
            assert(is_first_min(e1, k1, n - 1));
        }
        if n == keys.len() {
            assert(e1 =~= eligible);
            assert(k1 =~= keys);
        }
    }
}

/// Index of the least key among the admitted indices; of several least
/// keys, the first.
pub fn first_min(eligible: &Vec<bool>, keys: &Vec<u64>) -> (found: Option<usize>)
    requires
        eligible.len() == keys.len(),
    ensures
        found matches Some(i) ==> first_min_spec(eligible@, keys@) == Some(i as int) && i
            < keys.len(),
        found matches Some(i) ==> is_first_min(eligible@, keys@, i as int),
        found is None ==> first_min_spec(eligible@, keys@) is None,
        found is None ==> forall|j: int| 0 <= j < eligible.len() ==> !#[trigger] eligible@[j],
{
    let mut best: Option<usize> = None;
    let mut i: usize = 0;
    while i < keys.len()
        invariant
            eligible.len() == keys.len(),
            i <= keys.len(),
            best is None ==> forall|j: int| 0 <= j < i ==> !#[trigger] eligible@[j],
            best matches Some(b) ==> {
                &&& b < i
                &&& eligible@[b as int]
                &&& forall|j: int|
                    0 <= j < i && #[trigger] eligible@[j] ==> keys@[b as int] <= keys@[j]
                &&& forall|j: int|
                    0 <= j < b && #[trigger] eligible@[j] ==> keys@[b as int] < keys@[j]
            },
        decreases keys.len() - i,
    {
        if eligible[i] {
            match best {
                None => {
                    best = Some(i);
                },
                Some(b) => {
                    if keys[i] < keys[b] {
                        best = Some(i);
                    }
                },
            }
        }
        i += 1;
    }
    proof {
        match best {
            Some(b) => {
                lemma_first_min_unique(eligible@, keys@, b as int);
            },
            None => {},
        }
    }
    best
}

/// How many items of `s` satisfy `p`.
pub open spec fn count_where<T>(s: Seq<T>, p: spec_fn(T) -> bool) -> nat
    decreases s.len(),
{
    if s.len() == 0 {
        0
    } else {
        count_where(s.drop_last(), p) + if p(s.last()) {
            1nat
        } else {
            0nat
        }
    }
}

/// Leaving items out adds nothing to the count.
pub proof fn lemma_count_where_filter<T>(s: Seq<T>, p: spec_fn(T) -> bool, keep: spec_fn(T) -> bool)
    ensures
        count_where(s.filter(keep), p) <= count_where(s, p),
    decreases s.len(),
{
    reveal(Seq::filter);
    if s.len() > 0 {
        lemma_count_where_filter(s.drop_last(), p, keep);
        let kept = s.drop_last().filter(keep);
        if keep(s.last()) {
            assert(kept.push(s.last()).drop_last() =~= kept);
        }
    }
}

/// Counting one item further adds one exactly when the item satisfies `p`.
pub proof fn lemma_count_where_step<T>(s: Seq<T>, p: spec_fn(T) -> bool, i: int)
    requires
        0 <= i < s.len(),
    ensures
        count_where(s.take(i + 1), p) == count_where(s.take(i), p) + if p(s[i]) {
            1nat
        } else {
            0nat
        },
        count_where(s.take(i), p) <= i,
    decreases i,
{
    assert(s.take(i + 1).drop_last() =~= s.take(i));
    if i > 0 {
        lemma_count_where_step(s, p, i - 1);
    }
}

/// Putting another item in a place changes the count by what the two items add.
pub proof fn lemma_count_where_update<T>(s: Seq<T>, p: spec_fn(T) -> bool, i: int, item: T)
    requires
        0 <= i < s.len(),
    ensures
        count_where(s.update(i, item), p) + if p(s[i]) {
            1nat
        } else {
            0nat
        } == count_where(s, p) + if p(item) {
            1nat
        } else {
            0nat
        },
    decreases s.len(),
{
    let after = s.update(i, item);
    if i == s.len() - 1 {
        assert(after.drop_last() =~= s.drop_last());
    } else {
        assert(after.drop_last() =~= s.drop_last().update(i, item));
        lemma_count_where_update(s.drop_last(), p, i, item);
    }
}

/// Taking an item out takes what it added out of the count.
pub proof fn lemma_count_where_remove<T>(s: Seq<T>, p: spec_fn(T) -> bool, i: int)
    requires
        0 <= i < s.len(),
    ensures
        count_where(s.remove(i), p) + if p(s[i]) {
            1nat
        } else {
            0nat
        } == count_where(s, p),
    decreases s.len(),
{
    let after = s.remove(i);
    if i == s.len() - 1 {
        assert(after =~= s.drop_last());
    } else {
        assert(after.drop_last() =~= s.drop_last().remove(i));
        assert(after.last() == s.last());
        lemma_count_where_remove(s.drop_last(), p, i);
    }
}

/// The digit `d` as a character.
pub open spec fn digit_char(d: nat) -> char {
    if d == 0 {
        '0'
    } else if d == 1 {
        '1'
    } else if d == 2 {
        '2'
    } else if d == 3 {
        '3'
    } else if d == 4 {
        '4'
    } else if d == 5 {
        '5'
    } else if d == 6 {
        '6'
    } else if d == 7 {
        '7'
    } else if d == 8 {
        '8'
    } else {
        '9'
    }
}

/// `n` written in decimal digits.
pub open spec fn decimal(n: nat) -> Seq<char>
    decreases n,
{
    if n < 10 {
        seq![digit_char(n)]
    } else {
        decimal(n / 10).push(digit_char(n % 10))
    }
}

/// The digit `d` as a text.
fn digit_str(d: u64) -> (s: &'static str)
    requires
        d < 10,
    ensures
        s@ == seq![digit_char(d as nat)],
{
    proof {
        reveal_strlit("0");
        reveal_strlit("1");
        reveal_strlit("2");
        reveal_strlit("3");
        reveal_strlit("4");
        reveal_strlit("5");
        reveal_strlit("6");
        reveal_strlit("7");
        reveal_strlit("8");
        reveal_strlit("9");
    }
    let s = if d == 0 {
        "0"
    } else if d == 1 {
        "1"
    } else if d == 2 {
        "2"
    } else if d == 3 {
        "3"
    } else if d == 4 {
        "4"
    } else if d == 5 {
        "5"
    } else if d == 6 {
        "6"
    } else if d == 7 {
        "7"
    } else if d == 8 {
        "8"
    } else {
        "9"
    };
    assert(s@ =~= seq![digit_char(d as nat)]);
    s
}

/// `n` written in decimal digits.
pub fn to_decimal(n: u64) -> (text: String)
    ensures
        text@ == decimal(n as nat),
    decreases n,
{
    if n < 10 {
        String::from_str(digit_str(n))
    } else {
        let mut text = to_decimal(n / 10);
        text.append(digit_str(n % 10));
        proof {
            assert(text@ =~= decimal(n as nat));
        }
        text
    }
}

} // verus!
