//! Decoded logs and their CSV export.

use vstd::prelude::*;
use vstd::string::*;
use vstd::utf8::encode_utf8;

verus! {

/// A parsed log: column names and decoded row values.
pub struct ParsedLog {
    pub columns: Vec<String>,
    pub rows: Vec<Vec<String>>,
}

/// The character sequences of a list of strings.
pub open spec fn texts(v: Seq<String>) -> Seq<Seq<char>> {
    v.map_values(|s: String| s@)
}

/// `parts` joined with `sep` between neighbours.
pub open spec fn join(parts: Seq<Seq<char>>, sep: char) -> Seq<char>
    decreases parts.len(),
{
    if parts.len() == 0 {
        Seq::empty()
    } else if parts.len() == 1 {
        parts[0]
    } else {
        join(parts.drop_last(), sep).push(sep) + parts.last()
    }
}

/// One CSV line: the fields joined by commas, then a newline.
pub open spec fn csv_line(fields: Seq<String>) -> Seq<char> {
    join(texts(fields), ',').push('\n')
}

/// The CSV lines of the given rows, one after the other.
pub open spec fn csv_rows(rows: Seq<Vec<String>>) -> Seq<char>
    decreases rows.len(),
{
    if rows.len() == 0 { Seq::empty() } else { csv_rows(rows.drop_last()) + csv_line(rows.last()@) }
}

/// The CSV text of a parsed log: the header line of column names, then one
/// line per row. Fields are written as they are, without quoting.
pub open spec fn csv_text(parsed: &ParsedLog) -> Seq<char> {
    csv_line(parsed.columns@) + csv_rows(parsed.rows@)
}

/// Appends the fields of `fields` joined by `sep`.
fn append_joined(out: &mut String, fields: &Vec<String>, sep: &str)
    requires
        sep@.len() == 1,
    ensures
        final(out)@ == old(out)@ + join(texts(fields@), sep@[0]),
{
    let n = fields.len();
    let mut i: usize = 0;
    while i < n
        invariant
            i <= n,
            n == fields@.len(),
            sep@.len() == 1,
            out@ == old(out)@ + join(texts(fields@.take(i as int)), sep@[0]),
        decreases n - i,
    {
        let ghost before = out@;
        if i > 0 {
            out.append(sep);
        }
        out.append(fields[i].as_str());
        proof {
            let t = texts(fields@.take(i + 1));
            assert(t.drop_last() =~= texts(fields@.take(i as int)));
            assert(t.last() == fields@[i as int]@);
            assert(sep@ =~= seq![sep@[0]]);
            if i > 0 {
                assert(join(t, sep@[0]) == join(t.drop_last(), sep@[0]).push(sep@[0]) + t.last());
                assert(out@ =~= old(out)@ + join(t, sep@[0]));
            } else {
                assert(t.len() == 1);
                assert(out@ =~= old(out)@ + join(t, sep@[0]));
            }
        }
        i += 1;
    }
    assert(fields@.take(n as int) =~= fields@);
}

/// Serializes a parsed log to CSV bytes (UTF-8).
pub fn to_csv(parsed: &ParsedLog) -> (r: Vec<u8>)
    ensures
        r@ == encode_utf8(csv_text(parsed)),
{
    proof {
        reveal_strlit(",");
        reveal_strlit("\n");
    }
    let mut out = String::new();
    append_joined(&mut out, &parsed.columns, ",");
    out.append("\n");
    assert(out@ =~= csv_line(parsed.columns@));
    let n = parsed.rows.len();
    let mut i: usize = 0;
    while i < n
        invariant
            i <= n,
            n == parsed.rows@.len(),
            out@ == csv_line(parsed.columns@) + csv_rows(parsed.rows@.take(i as int)),
        decreases n - i,
    {
        proof {
            reveal_strlit(",");
            reveal_strlit("\n");
        }
        append_joined(&mut out, &parsed.rows[i], ",");
        out.append("\n");
        proof {
            let r = parsed.rows@.take(i + 1);
            assert(r.drop_last() =~= parsed.rows@.take(i as int));
        }
        i += 1;
        assert(out@ =~= csv_line(parsed.columns@) + csv_rows(parsed.rows@.take(i as int)));
    }
    assert(parsed.rows@.take(n as int) =~= parsed.rows@);
    out.as_str().as_bytes_vec()
}


/// Index of the last `sep` in `s`; -1 without one.
pub open spec fn last_index_of(s: Seq<char>, sep: char) -> int
    decreases s.len(),
{
    if s.len() == 0 {
        -1
    } else if s.last() == sep {
        s.len() - 1
    } else {
        last_index_of(s.drop_last(), sep)
    }
}

proof fn lemma_last_index_bound(s: Seq<char>, sep: char)
    ensures
        -1 <= last_index_of(s, sep) < s.len(),
        last_index_of(s, sep) >= 0 ==> s[last_index_of(s, sep)] == sep,
        last_index_of(s, sep) < 0 ==> !s.contains(sep),
    decreases s.len(),
{
    if s.len() > 0 && s.last() != sep {
        lemma_last_index_bound(s.drop_last(), sep);
        if last_index_of(s, sep) < 0 {
            assert forall|i: int| 0 <= i < s.len() implies s[i] != sep by {
                if i < s.len() - 1 {
                    assert(s.drop_last()[i] == s[i]);
                }
            }
        }
    }
}

/// `s` cut at every `sep`, as `str::split` cuts it.
pub open spec fn split_at_char(s: Seq<char>, sep: char) -> Seq<Seq<char>>
    decreases s.len(),
{
    let i = last_index_of(s, sep);
    if i < 0 || i >= s.len() {
        seq![s]
    } else {
        split_at_char(s.take(i), sep).push(s.skip(i + 1))
    }
}

/// The records of CSV text: its lines (the empty piece after the final
/// newline dropped, as `str::lines` does), each cut at its commas.
pub open spec fn csv_records(text: Seq<char>) -> Seq<Seq<Seq<char>>> {
    split_at_char(text, '\n').drop_last().map_values(|l: Seq<char>| split_at_char(l, ','))
}

proof fn lemma_last_index_append(a: Seq<char>, b: Seq<char>, sep: char)
    requires
        !b.contains(sep),
    ensures
        last_index_of(a + b, sep) == last_index_of(a, sep),
    decreases b.len(),
{
    if b.len() > 0 {
        assert((a + b).drop_last() =~= a + b.drop_last());
        assert((a + b).last() == b.last());
        assert(b.last() == b[b.len() - 1]);
        assert forall|i: int| 0 <= i < b.drop_last().len() implies b.drop_last()[i] != sep by {
            assert(b.drop_last()[i] == b[i]);
        }
        lemma_last_index_append(a, b.drop_last(), sep);
    } else {
        assert(a + b =~= a);
    }
}

/// Cutting parts joined by `sep` gives the parts back, when none holds
/// `sep`.
proof fn lemma_split_join(parts: Seq<Seq<char>>, sep: char)
    requires
        parts.len() > 0,
        forall|k: int| 0 <= k < parts.len() ==> !(#[trigger] parts[k]).contains(sep),
    ensures
        split_at_char(join(parts, sep), sep) == parts,
    decreases parts.len(),
{
    if parts.len() == 1 {
        lemma_last_index_bound(parts[0], sep);
        lemma_last_index_append(Seq::empty(), parts[0], sep);
        assert(Seq::<char>::empty() + parts[0] =~= parts[0]);
        assert(seq![parts[0]] =~= parts);
    } else {
        let init = parts.drop_last();
        assert forall|k: int| 0 <= k < init.len() implies !(#[trigger] init[k]).contains(sep) by {
            assert(init[k] == parts[k]);
        }
        lemma_split_join(init, sep);
        let a = join(init, sep).push(sep);
        let last = parts.last();
        assert(!parts[parts.len() - 1].contains(sep));
        lemma_last_index_append(a, last, sep);
        assert(last_index_of(a, sep) == join(init, sep).len());
        let j = join(parts, sep);
        assert(j == a + last);
        assert(j.take(join(init, sep).len() as int) =~= join(init, sep));
        assert(j.skip(join(init, sep).len() as int + 1) =~= last);
        assert(init.push(last) =~= parts);
    }
}

/// The lines of the CSV text, without their newlines.
pub open spec fn csv_lines(p: &ParsedLog) -> Seq<Seq<char>> {
    seq![join(texts(p.columns@), ',')] + p.rows@.map_values(|r: Vec<String>| join(texts(r@), ','))
}

proof fn lemma_csv_rows_join(head: Seq<char>, rows: Seq<Vec<String>>)
    ensures
        head.push('\n') + csv_rows(rows) == join(
            seq![head] + rows.map_values(|r: Vec<String>| join(texts(r@), ',')),
            '\n',
        ).push('\n'),
    decreases rows.len(),
{
    let ls = seq![head] + rows.map_values(|r: Vec<String>| join(texts(r@), ','));
    if rows.len() == 0 {
        assert(ls =~= seq![head]);
        assert(csv_rows(rows) =~= Seq::<char>::empty());
        assert(head.push('\n') + csv_rows(rows) =~= head.push('\n'));
    } else {
        let init = rows.drop_last();
        lemma_csv_rows_join(head, init);
        let li = seq![head] + init.map_values(|r: Vec<String>| join(texts(r@), ','));
        assert(ls.drop_last() =~= li);
        assert(ls.last() == join(texts(rows.last()@), ','));
        assert(head.push('\n') + csv_rows(rows) =~= (head.push('\n') + csv_rows(init)) + csv_line(rows.last()@));
        assert(join(ls, '\n') == join(li, '\n').push('\n') + ls.last());
        assert(join(ls, '\n').push('\n') =~= join(li, '\n').push('\n') + csv_line(rows.last()@));
    }
}

proof fn lemma_join_free(parts: Seq<Seq<char>>, sep: char, c: char)
    requires
        c != sep,
        forall|k: int| 0 <= k < parts.len() ==> !(#[trigger] parts[k]).contains(c),
    ensures
        !join(parts, sep).contains(c),
    decreases parts.len(),
{
    if parts.len() > 1 {
        let init = parts.drop_last();
        assert forall|k: int| 0 <= k < init.len() implies !(#[trigger] init[k]).contains(c) by {
            assert(init[k] == parts[k]);
        }
        lemma_join_free(init, sep, c);
        let a = join(init, sep).push(sep);
        let b = parts.last();
        assert(!parts[parts.len() - 1].contains(c));
        assert forall|i: int| 0 <= i < (a + b).len() implies (a + b)[i] != c by {
            if i < a.len() - 1 {
                assert((a + b)[i] == join(init, sep)[i]);
            } else if i >= a.len() {
                assert((a + b)[i] == b[i - a.len()]);
            }
        }
    } else if parts.len() == 1 {
        assert(!parts[0].contains(c));
    }
}

/// No field holds `c`.
pub open spec fn fields_free_of(fields: Seq<String>, c: char) -> bool {
    forall|k: int| 0 <= k < fields.len() ==> !(#[trigger] fields[k])@.contains(c)
}

/// CSV text splits back into the header and the rows: cut into lines at
/// its newlines and each line at its commas, it gives the column names,
/// then each row's cells, when there is a column, no row is empty, and no
/// name or cell holds a comma or a newline.
pub proof fn lemma_csv_reads_back(p: &ParsedLog)
    requires
        p.columns@.len() > 0,
        fields_free_of(p.columns@, ','),
        fields_free_of(p.columns@, '\n'),
        forall|j: int| 0 <= j < p.rows@.len() ==> (#[trigger] p.rows@[j])@.len() > 0,
        forall|j: int| 0 <= j < p.rows@.len() ==> fields_free_of(#[trigger] p.rows@[j]@, ','),
        forall|j: int| 0 <= j < p.rows@.len() ==> fields_free_of(#[trigger] p.rows@[j]@, '\n'),
    ensures
        csv_records(csv_text(p)) == seq![texts(p.columns@)] + p.rows@.map_values(|r: Vec<String>| texts(r@)),
{
    let ls = csv_lines(p);
    lemma_csv_rows_join(join(texts(p.columns@), ','), p.rows@);
    assert(csv_text(p) == join(ls, '\n').push('\n'));
    assert forall|k: int| 0 <= k < ls.len() implies !(#[trigger] ls[k]).contains('\n') by {
        let fields = if k == 0 { p.columns@ } else { p.rows@[k - 1]@ };
        assert(ls[k] == join(texts(fields), ','));
        assert forall|m: int| 0 <= m < texts(fields).len() implies !(#[trigger] texts(fields)[m]).contains('\n') by {
            assert(texts(fields)[m] == fields[m]@);
        }
        lemma_join_free(texts(fields), ',', '\n');
    }
    lemma_split_join(ls, '\n');
    let t = csv_text(p);
    let j = join(ls, '\n');
    assert(last_index_of(t, '\n') == j.len());
    assert(t.take(j.len() as int) =~= j);
    assert(t.skip(j.len() as int + 1) =~= Seq::<char>::empty());
    assert(split_at_char(t, '\n') == ls.push(Seq::<char>::empty()));
    assert(split_at_char(t, '\n').drop_last() =~= ls);
    let want = seq![texts(p.columns@)] + p.rows@.map_values(|r: Vec<String>| texts(r@));
    assert forall|k: int| 0 <= k < ls.len() implies split_at_char(#[trigger] ls[k], ',') == want[k] by {
        let fields = if k == 0 { p.columns@ } else { p.rows@[k - 1]@ };
        assert(ls[k] == join(texts(fields), ','));
        assert(want[k] == texts(fields));
        assert forall|m: int| 0 <= m < texts(fields).len() implies !(#[trigger] texts(fields)[m]).contains(',') by {
            assert(texts(fields)[m] == fields[m]@);
        }
        lemma_split_join(texts(fields), ',');
    }
    assert(csv_records(t) =~= want);
}


/// Rows between two progress reports while decoding a log whose rows of
/// `width` bytes take `body_len` bytes: about 50 reports whatever the size,
/// at least one row apart.
pub fn progress_interval(body_len: usize, width: usize) -> (r: usize)
    requires
        width > 0,
    ensures
        r == (if body_len / width / 50 > 1 { body_len / width / 50 } else { 1 }),
{
    let q = body_len / width / 50;
    if q > 1 { q } else { 1 }
}

} // verus!
