use vstd::prelude::*;

use crate::text::{chars_of, ids_of, push_char};

verus! {

/// A field is written with `\` before each `\` and each `|`, and ends with `|`.
pub open spec fn escaped_char(c: char) -> Seq<char> {
    if c == '\\' || c == '|' {
        seq!['\\', c]
    } else {
        seq![c]
    }
}

pub open spec fn escaped(s: Seq<char>) -> Seq<char>
    decreases s.len(),
{
    if s.len() == 0 {
        Seq::empty()
    } else {
        escaped(s.drop_last()) + escaped_char(s.last())
    }
}

/// The text of a list of fields.
pub open spec fn encoded_fields(fs: Seq<Seq<char>>) -> Seq<char>
    decreases fs.len(),
{
    if fs.len() == 0 {
        Seq::empty()
    } else {
        encoded_fields(fs.drop_last()) + escaped(fs.last()) + seq!['|']
    }
}

/// Where a reader of field text stands: the fields it has completed, the one it is in, whether
/// the last character was an escaping `\`, and whether the text has been well formed so far.
pub struct ScanState {
    pub done: Seq<Seq<char>>,
    pub cur: Seq<char>,
    pub pending: bool,
    pub ok: bool,
}

pub open spec fn scan_start() -> ScanState {
    ScanState { done: Seq::empty(), cur: Seq::empty(), pending: false, ok: true }
}

pub open spec fn scan_step(st: ScanState, c: char) -> ScanState {
    if !st.ok {
        st
    } else if st.pending {
        if c == '\\' || c == '|' {
            ScanState { cur: st.cur.push(c), pending: false, ..st }
        } else {
            ScanState { ok: false, ..st }
        }
    } else if c == '\\' {
        ScanState { pending: true, ..st }
    } else if c == '|' {
        ScanState { done: st.done.push(st.cur), cur: Seq::empty(), ..st }
    } else {
        ScanState { cur: st.cur.push(c), ..st }
    }
}

pub open spec fn scan_from(st: ScanState, s: Seq<char>) -> ScanState
    decreases s.len(),
{
    if s.len() == 0 {
        st
    } else {
        scan_step(scan_from(st, s.drop_last()), s.last())
    }
}

/// The fields that `text` holds, or `None` when it is not a well-formed field text.
pub open spec fn decoded_fields(text: Seq<char>) -> Option<Seq<Seq<char>>> {
    let st = scan_from(scan_start(), text);
    if st.ok && !st.pending && st.cur.len() == 0 {
        Some(st.done)
    } else {
        None
    }
}

proof fn lemma_scan_concat(st: ScanState, a: Seq<char>, b: Seq<char>)
    ensures
        scan_from(st, a + b) == scan_from(scan_from(st, a), b),
    decreases b.len(),
{
    if b.len() == 0 {
        assert(a + b =~= a);
    } else {
        assert((a + b).drop_last() =~= a + b.drop_last());
        lemma_scan_concat(st, a, b.drop_last());
    }
}

proof fn lemma_scan_escaped(st: ScanState, s: Seq<char>)
    requires
        st.ok,
        !st.pending,
    ensures
        scan_from(st, escaped(s)) == (ScanState { cur: st.cur + s, ..st }),
    decreases s.len(),
{
    if s.len() == 0 {
        assert(st.cur + s =~= st.cur);
    } else {
        let front = s.drop_last();
        let c = s.last();
        lemma_scan_escaped(st, front);
        lemma_scan_concat(st, escaped(front), escaped_char(c));
        let mid = ScanState { cur: st.cur + front, ..st };
        let e = escaped_char(c);
        assert(escaped(s) == escaped(front) + e);
        assert(e.last() == c);
        if c == '\\' || c == '|' {
            assert(e.drop_last() =~= seq!['\\']);
            assert(seq!['\\'].drop_last() =~= Seq::<char>::empty());
            assert(seq!['\\'].last() == '\\');
            assert(scan_from(mid, Seq::<char>::empty()) == mid);
            assert(scan_from(mid, seq!['\\']) == scan_step(mid, '\\'));
            assert(scan_from(mid, e) == scan_step(scan_from(mid, seq!['\\']), c));
        } else {
            assert(e.drop_last() =~= Seq::<char>::empty());
            assert(scan_from(mid, Seq::<char>::empty()) == mid);
            assert(scan_from(mid, e) == scan_step(mid, c));
        }
        assert(mid.cur.push(c) =~= st.cur + s);
    }
}

proof fn lemma_scan_encoded(fs: Seq<Seq<char>>)
    ensures
        scan_from(scan_start(), encoded_fields(fs)) == (ScanState {
            done: fs,
            cur: Seq::empty(),
            pending: false,
            ok: true,
        }),
    decreases fs.len(),
{
    if fs.len() == 0 {
        assert(fs =~= Seq::<Seq<char>>::empty());
    } else {
        let front = fs.drop_last();
        lemma_scan_encoded(front);
        let st = scan_from(scan_start(), encoded_fields(front));
        lemma_scan_concat(scan_start(), encoded_fields(front), escaped(fs.last()));
        lemma_scan_escaped(st, fs.last());
        lemma_scan_concat(
            scan_start(),
            encoded_fields(front) + escaped(fs.last()),
            seq!['|'],
        );
        let st2 = ScanState { cur: st.cur + fs.last(), ..st };
        assert(seq!['|'].drop_last() =~= Seq::<char>::empty());
        assert(seq!['|'].last() == '|');
        assert(scan_from(st2, Seq::<char>::empty()) == st2);
        assert(scan_from(st2, seq!['|']) == scan_step(st2, '|'));
        assert(Seq::<char>::empty() + fs.last() =~= fs.last());
        assert(encoded_fields(fs) == encoded_fields(front) + escaped(fs.last()) + seq!['|']);
        assert(front.push(fs.last()) =~= fs);
    }
}

/// Reading the text of a list of fields gives that list back.
pub proof fn lemma_fields_round_trip(fs: Seq<Seq<char>>)
    ensures
        decoded_fields(encoded_fields(fs)) == Some(fs),
{
    lemma_scan_encoded(fs);
}

/// Writes `field`, escaped and terminated, at the end of `out`.
fn write_field(out: &mut String, field: &str)
    ensures
        final(out)@ == old(out)@ + escaped(field@) + seq!['|'],
{
    let chars = chars_of(field);
    let mut i: usize = 0;
    while i < chars.len()
        invariant
            chars@ == field@,
            i <= chars@.len(),
            out@ == old(out)@ + escaped(field@.take(i as int)),
        decreases chars@.len() - i,
    {
        let c = chars[i];
        if c == '\\' || c == '|' {
            push_char(out, '\\');
        }
        push_char(out, c);
        proof {
            assert(field@.take(i + 1).drop_last() =~= field@.take(i as int));
        }
        i = i + 1;
    }
    push_char(out, '|');
    assert(field@.take(chars@.len() as int) =~= field@);
}

/// The text of `fields`.
pub fn encode_fields(fields: &Vec<String>) -> (r: String)
    ensures
        r@ == encoded_fields(ids_of(fields@)),
{
    let mut out = String::new();
    let mut i: usize = 0;
    while i < fields.len()
        invariant
            i <= fields@.len(),
            out@ == encoded_fields(ids_of(fields@).take(i as int)),
        decreases fields@.len() - i,
    {
        write_field(&mut out, fields[i].as_str());
        proof {
            let fs = ids_of(fields@);
            assert(fs.take(i + 1).drop_last() =~= fs.take(i as int));
            assert(fs.take(i + 1).last() == fields@[i as int]@);
        }
        i = i + 1;
    }
    assert(ids_of(fields@).take(fields@.len() as int) =~= ids_of(fields@));
    out
}

/// The fields held by `text`, or `None` when it is not a well-formed field text.
pub fn decode_fields(text: &str) -> (r: Option<Vec<String>>)
    ensures
        match r {
            Some(v) => decoded_fields(text@) == Some(ids_of(v@)),
            None => decoded_fields(text@) is None,
        },
{
    let chars = chars_of(text);
    let mut done: Vec<String> = Vec::new();
    let mut cur = String::new();
    let mut pending = false;
    let mut ok = true;
    let mut i: usize = 0;
    assert(text@.take(0) =~= Seq::<char>::empty());
    assert(ids_of(done@) =~= Seq::<Seq<char>>::empty());
    while i < chars.len()
        invariant
            chars@ == text@,
            i <= chars@.len(),
            (ScanState { done: ids_of(done@), cur: cur@, pending, ok }) == scan_from(
                scan_start(),
                text@.take(i as int),
            ),
        decreases chars@.len() - i,
    {
        let c = chars[i];
        let ghost before = ScanState { done: ids_of(done@), cur: cur@, pending, ok };
        if !ok {
        } else if pending {
            if c == '\\' || c == '|' {
                push_char(&mut cur, c);
                pending = false;
            } else {
                ok = false;
            }
        } else if c == '\\' {
            pending = true;
        } else if c == '|' {
            let field = cur;
            done.push(field);
            cur = String::new();
            proof {
                assert(ids_of(done@) =~= before.done.push(before.cur));
            }
        } else {
            push_char(&mut cur, c);
        }
        proof {
            assert(text@.take(i + 1).drop_last() =~= text@.take(i as int));
            assert((ScanState { done: ids_of(done@), cur: cur@, pending, ok }) =~= scan_step(
                before,
                c,
            ));
        }
        i = i + 1;
    }
    assert(text@.take(chars@.len() as int) =~= text@);
    if ok && !pending && cur.as_str().is_empty() {
        Some(done)
    } else {
        proof {
            if ok && !pending {
                assert(cur@.len() != 0);
            }
        }
        None
    }
}

} // verus!
