use vstd::prelude::*;

verus! {

/// What a list of strings holds, as character sequences.
pub open spec fn ids_of(v: Seq<String>) -> Seq<Seq<char>> {
    v.map_values(|s: String| s@)
}

/// The characters of `s`, one per element.
pub fn chars_of(s: &str) -> (r: Vec<char>)
    ensures
        r@ == s@,
{
    let mut r: Vec<char> = Vec::new();
    for c in it: s.chars()
        invariant
            it.seq() == s@,
            r@ == it.seq().take(it.index() as int),
    {
        r.push(c);
    }
    r
}

/// The first position at or after `from` where `chars` holds `c`.
pub fn find_char(chars: &Vec<char>, c: char, from: usize) -> (r: Option<usize>)
    ensures
        match r {
            Some(p) => from <= p < chars@.len() && chars@[p as int] == c && forall|q: int|
                from <= q < p ==> chars@[q] != c,
            None => forall|q: int| from <= q < chars@.len() ==> chars@[q] != c,
        },
{
    let mut i: usize = from;
    while i < chars.len()
        invariant
            from <= i,
            forall|q: int| from <= q < i ==> chars@[q] != c,
        decreases chars@.len() - i,
    {
        if chars[i] == c {
            return Some(i);
        }
        i = i + 1;
    }
    None
}

/// The characters of `s` from position `from` up to `to`, as a new string.
pub fn slice_of(s: &str, from: usize, to: usize) -> (r: String)
    requires
        from <= to <= s@.len(),
    ensures
        r@ == s@.subrange(from as int, to as int),
{
    s.substring_char(from, to).to_owned()
}

/// Relies on `String::push`, which appends one character.
#[verifier::external_body]
pub fn push_char(s: &mut String, c: char)
    ensures
        final(s)@ == old(s)@.push(c),
{
    s.push(c)
}

/// Splits a `date T time` text at its first `T`. A text without `T` is all date and no time.
pub fn split_datetime(dt: &str) -> (r: (String, String))
    ensures
        !r.0@.contains('T'),
        dt@.contains('T') ==> dt@ == r.0@ + seq!['T'] + r.1@,
        !dt@.contains('T') ==> r.0@ == dt@ && r.1@.len() == 0,
{
    let chars = chars_of(dt);
    let n = chars.len();
    match find_char(&chars, 'T', 0) {
        Some(p) => {
            let date = slice_of(dt, 0, p);
            let time = slice_of(dt, p + 1, chars.len());
            proof {
                assert(dt@ =~= date@ + seq!['T'] + time@);
                if date@.contains('T') {
                    let q = choose|q: int| 0 <= q < date@.len() && date@[q] == 'T';
                    assert(chars@[q] == 'T');
                }
            }
            (date, time)
        },
        None => {
            proof {
                if dt@.contains('T') {
                    let q = choose|q: int| 0 <= q < dt@.len() && dt@[q] == 'T';
                    assert(chars@[q] == 'T');
                }
            }
            (slice_of(dt, 0, chars.len()), String::new())
        },
    }
}

} // verus!
