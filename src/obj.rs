use vstd::prelude::*;

verus! {

/// Whether `c` is an ASCII decimal digit.
pub open spec fn is_digit(c: char) -> bool {
    '0' <= c && c <= '9'
}

/// The value of a digit character.
pub open spec fn digit_value(c: char) -> nat {
    (c as u32 - 48) as nat
}

/// The value of a string of decimal digits.
pub open spec fn digits_value(s: Seq<char>) -> nat
    decreases s.len(),
{
    if s.len() == 0 {
        0
    } else {
        digits_value(s.drop_last()) * 10 + digit_value(s.last())
    }
}

/// The digits of an index token: the token without one leading `+`.
pub open spec fn index_digits(s: Seq<char>) -> Seq<char> {
    if s.len() > 0 && s[0] == '+' {
        s.drop_first()
    } else {
        s
    }
}

/// The index that a token of an OBJ face line names: an optional `+`
/// followed by one or more decimal digits, whose value fits a `usize`.
pub open spec fn index_of(s: Seq<char>) -> Option<nat> {
    let d = index_digits(s);
    if d.len() > 0 && (forall|i: int| 0 <= i < d.len() ==> is_digit(#[trigger] d[i])) && digits_value(d) <= usize::MAX {
        Some(digits_value(d))
    } else {
        None
    }
}

proof fn lemma_digits_value_grows(s: Seq<char>, k: int)
    requires
        0 <= k <= s.len(),
        forall|i: int| 0 <= i < s.len() ==> is_digit(#[trigger] s[i]),
    ensures
        digits_value(s.subrange(0, k)) <= digits_value(s),
    decreases s.len(),
{
    if k < s.len() {
        let rest = s.drop_last();
        assert forall|i: int| 0 <= i < rest.len() implies is_digit(#[trigger] rest[i]) by {
            assert(rest[i] == s[i]);
        }
        lemma_digits_value_grows(rest, k);
        assert(rest.subrange(0, k) =~= s.subrange(0, k));
    } else {
        assert(s.subrange(0, k) =~= s);
    }
}

/// Reads one vertex index of an OBJ face line; `None` where the token is
/// not an index.
pub fn parse_index(token: &str) -> (r: Option<usize>)
    ensures
        r matches Some(n) ==> index_of(token@) == Some(n as nat),
        r is None ==> index_of(token@) is None,
{
    let len = token.unicode_len();
    let mut start: usize = 0;
    if len > 0 && token.get_char(0) == '+' {
        start = 1;
    }
    let ghost d = index_digits(token@);
    assert(d =~= token@.subrange(start as int, len as int));
    if start == len {
        return None;
    }
    let mut value: usize = 0;
    let mut i: usize = start;
    while i < len
        invariant
            start <= i <= len,
            len == token@.len(),
            d == token@.subrange(start as int, len as int),
            d == index_digits(token@),
            forall|q: int| 0 <= q < i - start ==> is_digit(#[trigger] d[q]),
            value as nat == digits_value(d.subrange(0, i - start)),
        decreases len - i,
    {
        let c = token.get_char(i);
        if c < '0' || c > '9' {
            assert(!is_digit(d[i - start]));
            return None;
        }
        let dv = (c as u32 - 48) as usize;
        assert(d.subrange(0, i + 1 - start).drop_last() =~= d.subrange(0, i - start));
        if value > (usize::MAX - dv) / 10 {
            proof {
                assert(value * 10 + dv > usize::MAX) by (nonlinear_arith)
                    requires value > (usize::MAX - dv) / 10, dv <= 9;
                let p = d.subrange(0, i + 1 - start);
                assert forall|q: int| 0 <= q < p.len() implies is_digit(#[trigger] p[q]) by {
                    if q < i - start {
                        assert(p[q] == d[q]);
                    }
                }
                if forall|q: int| 0 <= q < d.len() ==> is_digit(#[trigger] d[q]) {
                    lemma_digits_value_grows(d, i + 1 - start);
                }
            }
            return None;
        }
        assert(value * 10 + dv <= usize::MAX) by (nonlinear_arith)
            requires value <= (usize::MAX - dv) / 10, dv <= 9;
        value = value * 10 + dv;
        i = i + 1;
    }
    assert(d.subrange(0, len - start) =~= d);
    Some(value)
}

/// A triangular face of a mesh: the 1-based positions of its three
/// vertices in the mesh's vertex list.
#[derive(Debug, Clone, Copy, PartialEq, Eq, Structural)]
pub struct Face {
    pub a_index: usize,
    pub b_index: usize,
    pub c_index: usize,
}

impl Face {
    pub fn new(a_index: usize, b_index: usize, c_index: usize) -> (r: Face)
        ensures
            r == (Face { a_index, b_index, c_index }),
    {
        Face { a_index, b_index, c_index }
    }

    /// The 0-based positions of the face's vertices in a list of
    /// `vertex_count` vertices; `None` where one of them is not in the list.
    pub fn vertex_slots(&self, vertex_count: usize) -> (r: Option<(usize, usize, usize)>)
        ensures
            r is Some <==> (1 <= self.a_index <= vertex_count && 1 <= self.b_index <= vertex_count && 1
                <= self.c_index <= vertex_count),
            r matches Some(t) ==> t == (
                (self.a_index - 1) as usize,
                (self.b_index - 1) as usize,
                (self.c_index - 1) as usize,
            ),
    {
        if self.a_index == 0 || self.a_index > vertex_count || self.b_index == 0 || self.b_index
            > vertex_count || self.c_index == 0 || self.c_index > vertex_count {
            None
        } else {
            Some((self.a_index - 1, self.b_index - 1, self.c_index - 1))
        }
    }
}

/// Reads the three vertex indices of a triangular OBJ face line (the tokens
/// after `f`).
pub fn parse_face(face_points: Vec<&str>) -> (r: Face)
    requires
        face_points.len() == 3,
        forall|k: int| 0 <= k < 3 ==> #[trigger] index_of(face_points@[k]@) is Some,
    ensures
        r.a_index == index_of(face_points@[0]@)->0,
        r.b_index == index_of(face_points@[1]@)->0,
        r.c_index == index_of(face_points@[2]@)->0,
{
    assert(index_of(face_points@[0]@) is Some);
    assert(index_of(face_points@[1]@) is Some);
    assert(index_of(face_points@[2]@) is Some);
    let a = parse_index(face_points[0]);
    let b = parse_index(face_points[1]);
    let c = parse_index(face_points[2]);
    match (a, b, c) {
        (Some(a_index), Some(b_index), Some(c_index)) => Face::new(a_index, b_index, c_index),
        _ => {
            proof {
                assert(false);
            }
            Face::new(0, 0, 0)
        },
    }
}

} // verus!
