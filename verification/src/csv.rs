//! The exported file format: one text line per snapshot, eight comma-separated
//! fields, a newline after each line, no header. This module states what a
//! rendered file holds, renders logs, defines what parsing a file yields, and
//! proves that parsing a rendered file recovers the log.

use vstd::prelude::*;
use vstd::string::StringExecFns;
use crate::decimal::{dec_int, dec_nat, dec_val, digit_val, fmt_i32, fmt_i64,
    lemma_dec_nat_digits, lemma_dec_val_dec_int};
use crate::snapshot::{Snapshot, SnapshotV};

verus! {

/// A field may not contain the separators of the file format.
pub open spec fn field_ok(s: Seq<char>) -> bool {
    forall|i: int| 0 <= i < s.len() ==> s[i] != ',' && s[i] != '\n'
}

/// All text fields of the snapshot are free of separators, so the snapshot
/// survives a round trip through the file format.
pub open spec fn snapshot_ok(v: SnapshotV) -> bool {
    &&& field_ok(v.mid_price)
    &&& field_ok(v.balance)
    &&& field_ok(v.position)
    &&& field_ok(v.fee)
    &&& field_ok(v.trade_amount)
    &&& field_ok(v.trade_qty)
}

/// The eight rendered fields of one snapshot, in file order.
pub open spec fn fields_of(v: SnapshotV) -> Seq<Seq<char>> {
    seq![
        dec_int(v.timestamp),
        v.mid_price,
        v.balance,
        v.position,
        v.fee,
        dec_int(v.trade_count),
        v.trade_amount,
        v.trade_qty,
    ]
}

/// Fields joined with commas.
pub open spec fn join_fields(fs: Seq<Seq<char>>) -> Seq<char>
    decreases fs.len(),
{
    if fs.len() == 0 {
        Seq::empty()
    } else if fs.len() == 1 {
        fs[0]
    } else {
        fs[0] + seq![','] + join_fields(fs.skip(1))
    }
}

/// One data line: the snapshot's joined fields and the line terminator.
pub open spec fn line_of(v: SnapshotV) -> Seq<char> {
    join_fields(fields_of(v)) + seq!['\n']
}

/// A whole file: one line per snapshot, in log order.
pub open spec fn csv_of(log: Seq<SnapshotV>) -> Seq<char>
    decreases log.len(),
{
    if log.len() == 0 {
        Seq::empty()
    } else {
        line_of(log[0]) + csv_of(log.skip(1))
    }
}

/// A file grows by one line when its log grows by one snapshot.
pub proof fn lemma_csv_of_push(log: Seq<SnapshotV>, v: SnapshotV)
    ensures
        csv_of(log.push(v)) == csv_of(log) + line_of(v),
    decreases log.len(),
{
    if log.len() == 0 {
        let p = log.push(v);
        assert(p.len() == 1);
        assert(p[0] == v);
        assert(p.skip(1) =~= Seq::<SnapshotV>::empty());
        assert(csv_of(p.skip(1)) == Seq::<char>::empty());
        assert(csv_of(p) == line_of(v) + csv_of(p.skip(1)));
        assert(csv_of(log) == Seq::<char>::empty());
        assert(csv_of(p) =~= csv_of(log) + line_of(v));
    } else {
        assert(log.push(v)[0] == log[0]);
        assert(log.push(v).skip(1) =~= log.skip(1).push(v));
        lemma_csv_of_push(log.skip(1), v);
        assert(csv_of(log.push(v)) =~= csv_of(log) + line_of(v));
    }
}

/// Renders one snapshot as its data line.
pub fn render_line(s: &Snapshot) -> (r: String)
    ensures
        r@ == line_of(s@),
{
    let mut out = fmt_i64(s.timestamp);
    out.append(",");
    out.append(s.mid_price.as_str());
    out.append(",");
    out.append(s.balance.as_str());
    out.append(",");
    out.append(s.position.as_str());
    out.append(",");
    out.append(s.fee.as_str());
    out.append(",");
    let count = fmt_i32(s.trade_count);
    out.append(count.as_str());
    out.append(",");
    out.append(s.trade_amount.as_str());
    out.append(",");
    out.append(s.trade_qty.as_str());
    out.append("\n");
    proof {
        reveal_strlit(",");
        reveal_strlit("\n");
        assert(out@ =~= line_of(s@)) by {
            reveal_with_fuel(join_fields, 9);
            assert(fields_of(s@).skip(1).skip(1) =~= fields_of(s@).skip(2));
            assert(fields_of(s@).skip(2).skip(1) =~= fields_of(s@).skip(3));
            assert(fields_of(s@).skip(3).skip(1) =~= fields_of(s@).skip(4));
            assert(fields_of(s@).skip(4).skip(1) =~= fields_of(s@).skip(5));
            assert(fields_of(s@).skip(5).skip(1) =~= fields_of(s@).skip(6));
            assert(fields_of(s@).skip(6).skip(1) =~= fields_of(s@).skip(7));
        }
    }
    out
}

/// Renders a whole log as the body of its export file.
pub fn render_log(log: &Vec<Snapshot>) -> (r: String)
    ensures
        r@ == csv_of(log.deep_view()),
{
    let mut out = String::new();
    let mut i: usize = 0;
    while i < log.len()
        invariant
            i <= log@.len(),
            log.deep_view().len() == log@.len(),
            out@ == csv_of(log.deep_view().take(i as int)),
        decreases log@.len() - i,
    {
        let line = render_line(&log[i]);
        out.append(line.as_str());
        proof {
            let dv = log.deep_view();
            assert(dv[i as int] == log@[i as int]@);
            assert(dv.take(i + 1) =~= dv.take(i as int).push(dv[i as int]));
            lemma_csv_of_push(dv.take(i as int), dv[i as int]);
        }
        i += 1;
    }
    proof {
        assert(log.deep_view().take(log@.len() as int) =~= log.deep_view());
    }
    out
}

/// The index of the first occurrence of `c` in `s`.
pub open spec fn find_char(s: Seq<char>, c: char) -> Option<int>
    decreases s.len(),
{
    if s.len() == 0 {
        None
    } else if s[0] == c {
        Some(0 as int)
    } else {
        match find_char(s.skip(1), c) {
            Some(k) => Some(k + 1),
            None => None,
        }
    }
}

/// What a find result means: the hit is the first occurrence; a miss means
/// there is none.
pub proof fn lemma_find_char_spec(s: Seq<char>, c: char)
    ensures
        match find_char(s, c) {
            Some(k) => 0 <= k < s.len() && s[k] == c && (forall|j: int| 0 <= j < k ==> s[j] != c),
            None => forall|j: int| 0 <= j < s.len() ==> s[j] != c,
        },
    decreases s.len(),
{
    if s.len() == 0 {
    } else if s[0] == c {
    } else {
        lemma_find_char_spec(s.skip(1), c);
        match find_char(s.skip(1), c) {
            Some(k) => {
                assert(s.skip(1)[k] == s[k + 1]);
                assert forall|j: int| 0 <= j < k + 1 implies s[j] != c by {
                    if j > 0 {
                        assert(s.skip(1)[j - 1] == s[j]);
                    }
                }
            },
            None => {
                assert forall|j: int| 0 <= j < s.len() implies s[j] != c by {
                    if j > 0 {
                        assert(s.skip(1)[j - 1] == s[j]);
                    }
                }
            },
        }
    }
}

/// Finding the separator in a text whose prefix is free of it lands exactly
/// on the separator.
pub proof fn lemma_find_char_concat(x: Seq<char>, c: char, y: Seq<char>)
    requires
        forall|i: int| 0 <= i < x.len() ==> x[i] != c,
    ensures
        find_char(x + seq![c] + y, c) == Some(x.len() as int),
{
    let s = x + seq![c] + y;
    lemma_find_char_spec(s, c);
    assert(s[x.len() as int] == c);
    match find_char(s, c) {
        Some(k) => {
            if k < x.len() {
                assert(s[k] == x[k]);
            }
            if k > x.len() {
                assert(s[x.len() as int] != c);
            }
        },
        None => {
            assert(s[x.len() as int] != c);
        },
    }
}

/// The comma-separated fields of one line.
pub open spec fn split_fields(s: Seq<char>) -> Seq<Seq<char>>
    decreases s.len(),
{
    match find_char(s, ',') {
        None => seq![s],
        Some(k) => if 0 <= k < s.len() {
            seq![s.take(k)] + split_fields(s.skip(k + 1))
        } else {
            seq![s]
        },
    }
}

/// Splitting a comma-joined sequence of separator-free fields recovers the
/// fields.
pub proof fn lemma_split_join(fs: Seq<Seq<char>>)
    requires
        fs.len() >= 1,
        forall|i: int, j: int|
            0 <= i < fs.len() && 0 <= j < fs[i].len() ==> #[trigger] fs[i][j] != ',',
    ensures
        split_fields(join_fields(fs)) == fs,
    decreases fs.len(),
{
    let s = join_fields(fs);
    if fs.len() == 1 {
        lemma_find_char_spec(s, ',');
        match find_char(s, ',') {
            Some(k) => {
                assert(fs[0][k] != ',');
            },
            None => {
                assert(split_fields(s) =~= fs);
            },
        }
    } else {
        let rest = join_fields(fs.skip(1));
        assert(s =~= fs[0] + seq![','] + rest);
        lemma_find_char_concat(fs[0], ',', rest);
        let k = fs[0].len() as int;
        assert(s.take(k) =~= fs[0]);
        assert(s.skip(k + 1) =~= rest);
        assert forall|i: int, j: int|
            0 <= i < fs.skip(1).len() && 0 <= j < fs.skip(1)[i].len() implies #[trigger] fs.skip(
            1,
        )[i][j] != ',' by {
            assert(fs.skip(1)[i] == fs[i + 1]);
        }
        lemma_split_join(fs.skip(1));
        assert(split_fields(s) =~= fs);
    }
}

/// What parsing one data line (without its terminator) yields.
pub open spec fn parse_line(s: Seq<char>) -> Option<SnapshotV> {
    let fs = split_fields(s);
    if fs.len() == 8 {
        match (dec_val(fs[0]), dec_val(fs[5])) {
            (Some(ts), Some(tc)) => Some(
                SnapshotV {
                    timestamp: ts,
                    mid_price: fs[1],
                    balance: fs[2],
                    position: fs[3],
                    fee: fs[4],
                    trade_count: tc,
                    trade_amount: fs[6],
                    trade_qty: fs[7],
                },
            ),
            _ => None,
        }
    } else {
        None
    }
}

/// What parsing a whole file yields: the snapshots of its lines, or nothing
/// where any line is malformed or unterminated.
pub open spec fn parse_csv(s: Seq<char>) -> Option<Seq<SnapshotV>>
    decreases s.len(),
{
    if s.len() == 0 {
        Some(Seq::empty())
    } else {
        match find_char(s, '\n') {
            None => None,
            Some(k) => if 0 <= k < s.len() {
                match (parse_line(s.take(k)), parse_csv(s.skip(k + 1))) {
                    (Some(v), Some(rest)) => Some(seq![v] + rest),
                    _ => None,
                }
            } else {
                None
            },
        }
    }
}

/// A rendered integer is free of separators.
pub proof fn lemma_dec_int_field_ok(n: int)
    ensures
        field_ok(dec_int(n)),
{
    if n >= 0 {
        lemma_dec_nat_digits(n as nat);
        assert forall|i: int| 0 <= i < dec_int(n).len() implies dec_int(n)[i] != ','
            && dec_int(n)[i] != '\n' by {
            assert(digit_val(dec_int(n)[i]) is Some);
            assert(digit_val(',') is None);
            assert(digit_val('\n') is None);
        }
    } else {
        lemma_dec_nat_digits((-n) as nat);
        assert forall|i: int| 0 <= i < dec_int(n).len() implies dec_int(n)[i] != ','
            && dec_int(n)[i] != '\n' by {
            if i >= 1 {
                assert(dec_int(n)[i] == dec_nat((-n) as nat)[i - 1]);
                assert(digit_val(dec_int(n)[i]) is Some);
                assert(digit_val(',') is None);
                assert(digit_val('\n') is None);
            }
        }
    }
}

/// A joined line is free of newlines when its fields are.
pub proof fn lemma_join_no_newline(fs: Seq<Seq<char>>)
    requires
        forall|i: int, j: int|
            0 <= i < fs.len() && 0 <= j < fs[i].len() ==> #[trigger] fs[i][j] != '\n',
    ensures
        forall|p: int| 0 <= p < join_fields(fs).len() ==> join_fields(fs)[p] != '\n',
    decreases fs.len(),
{
    if fs.len() <= 1 {
    } else {
        assert forall|i: int, j: int|
            0 <= i < fs.skip(1).len() && 0 <= j < fs.skip(1)[i].len() implies #[trigger] fs.skip(
            1,
        )[i][j] != '\n' by {
            assert(fs.skip(1)[i] == fs[i + 1]);
        }
        lemma_join_no_newline(fs.skip(1));
        let s = join_fields(fs);
        assert forall|p: int| 0 <= p < s.len() implies s[p] != '\n' by {
            if p < fs[0].len() {
                assert(s[p] == fs[0][p]);
            } else if p == fs[0].len() {
                assert(s[p] == ',');
            } else {
                assert(s[p] == join_fields(fs.skip(1))[p - fs[0].len() - 1]);
            }
        }
    }
}

/// The fields of a well-formed snapshot are free of separators.
proof fn lemma_fields_of_ok(v: SnapshotV)
    requires
        snapshot_ok(v),
    ensures
        forall|i: int, j: int|
            0 <= i < fields_of(v).len() && 0 <= j < fields_of(v)[i].len()
                ==> #[trigger] fields_of(v)[i][j] != ',' && fields_of(v)[i][j] != '\n',
{
    lemma_dec_int_field_ok(v.timestamp);
    lemma_dec_int_field_ok(v.trade_count);
    assert forall|i: int, j: int|
        0 <= i < fields_of(v).len() && 0 <= j < fields_of(v)[i].len()
            implies #[trigger] fields_of(v)[i][j] != ',' && fields_of(v)[i][j] != '\n' by {
        if i == 0 {
            assert(field_ok(dec_int(v.timestamp)));
        } else if i == 5 {
            assert(field_ok(dec_int(v.trade_count)));
        }
    }
}

/// Law: parsing the rendered line of a well-formed snapshot recovers it.
pub proof fn lemma_line_round_trip(v: SnapshotV)
    requires
        snapshot_ok(v),
    ensures
        parse_line(join_fields(fields_of(v))) == Some(v),
{
    lemma_fields_of_ok(v);
    lemma_split_join(fields_of(v));
    lemma_dec_val_dec_int(v.timestamp);
    lemma_dec_val_dec_int(v.trade_count);
}

/// Law: parsing a rendered file recovers the recorded log exactly, snapshot
/// for snapshot and in order, whenever every snapshot's text fields are free
/// of the format's separators.
pub proof fn lemma_csv_round_trip(log: Seq<SnapshotV>)
    requires
        forall|i: int| 0 <= i < log.len() ==> snapshot_ok(#[trigger] log[i]),
    ensures
        parse_csv(csv_of(log)) == Some(log),
    decreases log.len(),
{
    if log.len() == 0 {
        assert(csv_of(log) =~= Seq::<char>::empty());
        assert(parse_csv(csv_of(log)) == Some(Seq::<SnapshotV>::empty()));
        assert(log =~= Seq::<SnapshotV>::empty());
    } else {
        let v = log[0];
        let body = join_fields(fields_of(v));
        let rest = csv_of(log.skip(1));
        let s = csv_of(log);
        assert(s =~= body + seq!['\n'] + rest);
        lemma_fields_of_ok(v);
        lemma_join_no_newline(fields_of(v));
        lemma_find_char_concat(body, '\n', rest);
        let k = body.len() as int;
        assert(s.take(k) =~= body);
        assert(s.skip(k + 1) =~= rest);
        lemma_line_round_trip(v);
        lemma_csv_round_trip(log.skip(1));
        assert(seq![v] + log.skip(1) =~= log);
        assert(s.len() > 0);
    }
}

/// Law: a log with no snapshots renders as an empty file, so a run with zero
/// capture calls exports files with zero data lines.
pub proof fn lemma_empty_log_renders_empty()
    ensures
        csv_of(Seq::<SnapshotV>::empty()) == Seq::<char>::empty(),
{
}

/// Law: the rendered file is a function of the recorded log alone, so two
/// exports of the same state are byte-identical.
pub proof fn lemma_export_idempotent(log: Seq<SnapshotV>, first: Seq<char>, second: Seq<char>)
    requires
        first == csv_of(log),
        second == csv_of(log),
    ensures
        first == second,
{
}

} // verus!
