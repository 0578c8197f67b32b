use vstd::prelude::*;
use vstd::string::*;

verus! {

/// A position within a queue: before the first record, or at an offset.
#[derive(Clone, Copy, Debug, PartialEq, Eq, Structural)]
pub enum Position {
    Beginning,
    Offset(u64),
}

/// The total order on positions: `Beginning` comes before every offset.
pub open spec fn pos_le(a: Position, b: Position) -> bool {
    match (a, b) {
        (Position::Beginning, _) => true,
        (Position::Offset(_), Position::Beginning) => false,
        (Position::Offset(x), Position::Offset(y)) => x <= y,
    }
}

impl Position {
    pub fn offset(offset: u64) -> (r: Position)
        ensures
            r == Position::Offset(offset),
    {
        Position::Offset(offset)
    }

    /// The offset that the WAL truncates up to, if any.
    pub fn as_u64(&self) -> (r: Option<u64>)
        ensures
            r == (match *self {
                Position::Beginning => None,
                Position::Offset(o) => Some(o),
            }),
    {
        match self {
            Position::Beginning => None,
            Position::Offset(o) => Some(*o),
        }
    }

    pub fn le(&self, other: &Position) -> (r: bool)
        ensures
            r == pos_le(*self, *other),
    {
        match (self, other) {
            (Position::Beginning, _) => true,
            (Position::Offset(_), Position::Beginning) => false,
            (Position::Offset(x), Position::Offset(y)) => *x <= *y,
        }
    }
}

/// Lifecycle of an ingester.
#[derive(Clone, Copy, Debug, PartialEq, Eq, Structural)]
pub enum IngesterStatus {
    Initializing,
    Ready,
    Failed,
}

pub open spec fn is_colon_free(s: Seq<char>) -> bool {
    forall|i: int| 0 <= i < s.len() ==> s[i] != ':'
}

/// The text of the queue that holds a shard: `index:source:shard`.
pub open spec fn queue_id_of(index_uid: Seq<char>, source_id: Seq<char>, shard_id: Seq<char>) -> Seq<char> {
    index_uid + seq![':'] + source_id + seq![':'] + shard_id
}

/// A queue id is well formed when it holds exactly two colons.
pub open spec fn is_valid_queue_id(s: Seq<char>) -> bool {
    exists|a: Seq<char>, b: Seq<char>, c: Seq<char>|
        is_colon_free(a) && is_colon_free(b) && is_colon_free(c) && s == #[trigger] queue_id_of(a, b, c)
}

/// Builds the queue id of a shard.
pub fn queue_id(index_uid: &str, source_id: &str, shard_id: &str) -> (r: String)
    ensures
        r@ == queue_id_of(index_uid@, source_id@, shard_id@),
{
    let sep = ":";
    proof {
        reveal_strlit(":");
    }
    let mut r = String::from_str(index_uid);
    r.append(sep);
    r.append(source_id);
    r.append(sep);
    r.append(shard_id);
    assert(r@ =~= queue_id_of(index_uid@, source_id@, shard_id@));
    r
}

/// Index of the first colon of `s` at or after `from`, or `s.len()` when none.
fn find_colon(s: &str, from: usize) -> (r: usize)
    requires
        from <= s@.len(),
    ensures
        from <= r <= s@.len(),
        r < s@.len() ==> s@[r as int] == ':',
        forall|i: int| from <= i < r ==> s@[i] != ':',
{
    let n = s.unicode_len();
    let mut i = from;
    while i < n
        invariant
            n == s@.len(),
            from <= i <= n,
            forall|k: int| from <= k < i ==> s@[k] != ':',
        decreases n - i,
    {
        if s.get_char(i) == ':' {
            return i;
        }
        i = i + 1;
    }
    i
}

/// Splits a queue id into its index uid, source id and shard id.
pub fn split_queue_id(queue_id: &str) -> (r: Option<(String, String, String)>)
    ensures
        r is Some <==> is_valid_queue_id(queue_id@),
        r matches Some((a, b, c)) ==> {
            &&& is_colon_free(a@)
            &&& is_colon_free(b@)
            &&& is_colon_free(c@)
            &&& queue_id@ == queue_id_of(a@, b@, c@)
        },
{
    let s = queue_id;
    let n = s.unicode_len();
    let i1 = find_colon(s, 0);
    if i1 == n {
        proof { lemma_needs_two_colons(s@, n as int, n as int); }
        return None;
    }
    let i2 = find_colon(s, i1 + 1);
    if i2 == n {
        proof { lemma_needs_two_colons(s@, i1 as int, n as int); }
        return None;
    }
    let i3 = find_colon(s, i2 + 1);
    if i3 < n {
        proof { lemma_no_third_colon(s@, i1 as int, i2 as int, i3 as int); }
        return None;
    }
    let a = String::from_str(s.substring_char(0, i1));
    let b = String::from_str(s.substring_char(i1 + 1, i2));
    let c = String::from_str(s.substring_char(i2 + 1, n));
    assert(s@ =~= queue_id_of(a@, b@, c@));
    proof {
        assert(is_colon_free(a@) && is_colon_free(b@) && is_colon_free(c@));
        assert(is_valid_queue_id(s@));
    }
    Some((a, b, c))
}

proof fn lemma_needs_two_colons(s: Seq<char>, i1: int, i2: int)
    requires
        0 <= i1 <= i2 <= s.len(),
        forall|i: int| 0 <= i < i1 ==> s[i] != ':',
        forall|i: int| i1 < i < i2 ==> s[i] != ':',
        i2 == s.len(),
    ensures
        !is_valid_queue_id(s),
{
    if is_valid_queue_id(s) {
        let (a, b, c) = choose|a: Seq<char>, b: Seq<char>, c: Seq<char>|
            is_colon_free(a) && is_colon_free(b) && is_colon_free(c) && s == #[trigger] queue_id_of(a, b, c);
        let p = a.len() as int;
        let q = a.len() + 1int + b.len();
        assert(s[p] == ':');
        assert(s[q] == ':');
    }
}

proof fn lemma_no_third_colon(s: Seq<char>, i1: int, i2: int, i3: int)
    requires
        0 <= i1 < i2 < i3 < s.len(),
        forall|i: int| 0 <= i < i1 ==> s[i] != ':',
        forall|i: int| i1 < i < i2 ==> s[i] != ':',
        s[i1] == ':',
        s[i2] == ':',
        s[i3] == ':',
    ensures
        !is_valid_queue_id(s),
{
    if is_valid_queue_id(s) {
        let (a, b, c) = choose|a: Seq<char>, b: Seq<char>, c: Seq<char>|
            is_colon_free(a) && is_colon_free(b) && is_colon_free(c) && s == #[trigger] queue_id_of(a, b, c);
        let p = a.len() as int;
        let q = a.len() + 1int + b.len();
        assert(s[p] == ':');
        assert(s[q] == ':');
        if p < i1 {
        } else if p > i1 {
            assert(s[i1] == a[i1]);
        } else if q < i2 {
            assert(s[q] == ':');
        } else if q > i2 {
            assert(s[i2] == b[i2 - p - 1]);
        } else {
            assert(s[i3] == c[i3 - q - 1]);
        }
    }
}

/// Splitting a queue id built from colon-free parts gives the parts back.
pub proof fn lemma_split_queue_id_round_trip(a: Seq<char>, b: Seq<char>, c: Seq<char>)
    requires
        is_colon_free(a),
        is_colon_free(b),
        is_colon_free(c),
    ensures
        is_valid_queue_id(queue_id_of(a, b, c)),
        forall|x: Seq<char>, y: Seq<char>, z: Seq<char>|
            is_colon_free(x) && is_colon_free(y) && is_colon_free(z) && #[trigger] queue_id_of(x, y, z)
                == queue_id_of(a, b, c) ==> x == a && y == b && z == c,
{
    assert forall|x: Seq<char>, y: Seq<char>, z: Seq<char>|
        is_colon_free(x) && is_colon_free(y) && is_colon_free(z) && #[trigger] queue_id_of(x, y, z)
            == queue_id_of(a, b, c) implies x == a && y == b && z == c by {
        let s = queue_id_of(a, b, c);
        if x.len() < a.len() {
            assert(s[x.len() as int] == ':');
            assert(s[x.len() as int] == a[x.len() as int]);
        } else if x.len() > a.len() {
            assert(s[a.len() as int] == ':');
            assert(s[a.len() as int] == x[a.len() as int]);
        }
        assert(x =~= s.subrange(0, a.len() as int));
        assert(a =~= s.subrange(0, a.len() as int));
        let p = a.len() + 1int;
        if y.len() < b.len() {
            assert(s[p + y.len()] == ':');
            assert(s[p + y.len()] == b[y.len() as int]);
        } else if y.len() > b.len() {
            assert(s[p + b.len()] == ':');
            assert(s[p + b.len()] == y[b.len() as int]);
        }
        assert(y =~= s.subrange(p, p + b.len()));
        assert(b =~= s.subrange(p, p + b.len()));
        let q = p + b.len() + 1int;
        assert(z =~= s.subrange(q, s.len() as int));
        assert(c =~= s.subrange(q, s.len() as int));
    }
}

} // verus!
