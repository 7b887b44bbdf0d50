use vstd::prelude::*;
use crate::text::{
    before_char, char_views, chars_of, contains_seq, find_first, first_occurrence, has_substring,
    lemma_lex_irreflexive, lemma_lex_total, lemma_lex_transitive, lex_before, lex_less, prefix_before,
    same_chars, string_of, trim, trimmed, views, lemma_trim_adds_nothing, lemma_before_char_has_no_sep, lemma_trim_ends, is_white_space,
};

verus! {

/// A character allowed in a ticker symbol: an ASCII letter or digit, `-` or `.`.
pub open spec fn is_ticker_char(c: char) -> bool {
    let u = c as u32;
    ||| 0x30 <= u <= 0x39
    ||| 0x41 <= u <= 0x5a
    ||| 0x61 <= u <= 0x7a
    ||| c == '-'
    ||| c == '.'
}

/// A usable ticker symbol: not empty, and made of ticker characters only.
pub open spec fn is_valid_ticker(t: Seq<char>) -> bool {
    t.len() > 0 && forall|i: int| 0 <= i < t.len() ==> is_ticker_char(#[trigger] t[i])
}

/// Decides `is_ticker_char`.
pub fn ticker_char(c: char) -> (r: bool)
    ensures
        r == is_ticker_char(c),
        r <==> ('0' <= c <= '9' || 'A' <= c <= 'Z' || 'a' <= c <= 'z' || c == '-' || c == '.'),
{
    let u = c as u32;
    (0x30 <= u && u <= 0x39) || (0x41 <= u && u <= 0x5a) || (0x61 <= u && u <= 0x7a) || c == '-'
        || c == '.'
}

/// Decides `is_valid_ticker`.
pub fn valid_ticker(t: &Vec<char>) -> (r: bool)
    ensures
        r == is_valid_ticker(t@),
{
    if t.len() == 0 {
        return false;
    }
    let mut i: usize = 0;
    while i < t.len()
        invariant
            i <= t.len(),
            forall|k: int| 0 <= k < i ==> is_ticker_char(#[trigger] t@[k]),
        decreases t.len() - i,
    {
        if !ticker_char(t[i]) {
            return false;
        }
        i = i + 1;
    }
    true
}

/// The lines of a text read so far: the finished lines and the line in progress.
pub open spec fn lines_so_far(s: Seq<char>) -> (Seq<Seq<char>>, Seq<char>)
    decreases s.len(),
{
    if s.len() == 0 {
        (Seq::empty(), Seq::empty())
    } else {
        let (done, cur) = lines_so_far(s.drop_last());
        if s.last() == '\n' {
            (done.push(cur), Seq::empty())
        } else {
            (done, cur.push(s.last()))
        }
    }
}

/// The pieces of a text between line feeds.
///
/// This differs from `str::lines` only in keeping a `\r` before a line feed and a
/// final empty piece; the ticker list below trims each field and drops empty
/// ones, so it is the same either way.
pub open spec fn split_lines(s: Seq<char>) -> Seq<Seq<char>> {
    lines_so_far(s).0.push(lines_so_far(s).1)
}

/// The ticker named on one CSV line: its first field, trimmed.
pub open spec fn csv_field(line: Seq<char>) -> Seq<char> {
    trim(before_char(line, ','))
}

/// The valid tickers named on the given CSV lines, in order.
pub open spec fn csv_ticker_list(lines: Seq<Seq<char>>) -> Seq<Seq<char>>
    decreases lines.len(),
{
    if lines.len() == 0 {
        Seq::empty()
    } else {
        let rest = csv_ticker_list(lines.drop_last());
        let t = csv_field(lines.last());
        if is_valid_ticker(t) {
            rest.push(t)
        } else {
            rest
        }
    }
}

/// All lines but the first (the header), if there is one.
pub open spec fn without_header(lines: Seq<Seq<char>>) -> Seq<Seq<char>> {
    if lines.len() == 0 {
        lines
    } else {
        lines.drop_first()
    }
}

/// The tickers listed in a CSV text whose first column holds the symbol:
/// the header line is skipped, each symbol is trimmed, and symbols that are
/// empty or hold other characters are left out.
pub open spec fn csv_tickers(text: Seq<char>) -> Seq<Seq<char>> {
    csv_ticker_list(without_header(split_lines(text)))
}

/// The tickers used when no ticker list can be read.
pub open spec fn fallback_ticker_list() -> Seq<Seq<char>> {
    seq![
        "AAPL"@, "MSFT"@, "TSLA"@, "NVDA"@, "AMZN"@, "META"@, "GOOGL"@, "SPY"@, "QQQ"@, "AMD"@,
        "PLTR"@, "IWM"@,
    ]
}

/// The built-in ticker list.
pub fn fallback_tickers() -> (r: Vec<String>)
    ensures
        views(r@) == fallback_ticker_list(),
{
    let r = vec![
        String::from_str("AAPL"),
        String::from_str("MSFT"),
        String::from_str("TSLA"),
        String::from_str("NVDA"),
        String::from_str("AMZN"),
        String::from_str("META"),
        String::from_str("GOOGL"),
        String::from_str("SPY"),
        String::from_str("QQQ"),
        String::from_str("AMD"),
        String::from_str("PLTR"),
        String::from_str("IWM"),
    ];
    assert(views(r@) =~= fallback_ticker_list());
    r
}

/// The ticker named on one CSV line.
fn line_ticker(line: &Vec<char>) -> (r: Vec<char>)
    ensures
        r@ == csv_field(line@),
{
    let field = prefix_before(line, ',');
    trimmed(&field)
}

proof fn lemma_csv_push(lines: Seq<Seq<char>>, line: Seq<char>)
    ensures
        csv_ticker_list(lines.push(line)) == (if is_valid_ticker(csv_field(line)) {
            csv_ticker_list(lines).push(csv_field(line))
        } else {
            csv_ticker_list(lines)
        }),
{
    assert(lines.push(line).drop_last() == lines);
}

/// Appends the ticker named on `line` to `r` when it is valid.
fn push_line_ticker(r: &mut Vec<String>, line: &Vec<char>)
    ensures
        views(final(r)@) == (if is_valid_ticker(csv_field(line@)) {
            views(old(r)@).push(csv_field(line@))
        } else {
            views(old(r)@)
        }),
{
    let t = line_ticker(line);
    if valid_ticker(&t) {
        let s = string_of(&t);
        r.push(s);
        assert(views(final(r)@) =~= views(old(r)@).push(csv_field(line@)));
    }
}

proof fn lemma_lines_step(s: Seq<char>, i: int)
    requires
        0 <= i < s.len(),
    ensures
        lines_so_far(s.take(i + 1)) == ({
            let (done, cur) = lines_so_far(s.take(i));
            if s[i] == '\n' {
                (done.push(cur), Seq::<char>::empty())
            } else {
                (done, cur.push(s[i]))
            }
        }),
{
    assert(s.take(i + 1).drop_last() == s.take(i));
}

/// The tickers listed in a CSV text (see `csv_tickers`).
pub fn tickers_in_csv(content: &str) -> (r: Vec<String>)
    ensures
        views(r@) == csv_tickers(content@),
{
    let chars = chars_of(content);
    let mut r: Vec<String> = Vec::new();
    let mut cur: Vec<char> = Vec::new();
    let mut lines_done: usize = 0;
    let ghost mut done: Seq<Seq<char>> = Seq::empty();
    let mut i: usize = 0;
    while i < chars.len()
        invariant
            i <= chars.len(),
            chars@ == content@,
            lines_so_far(chars@.take(i as int)) == (done, cur@),
            lines_done == done.len(),
            lines_done <= i,
            views(r@) == csv_ticker_list(without_header(done)),
        decreases chars.len() - i,
    {
        proof {
            lemma_lines_step(chars@, i as int);
        }
        let c = chars[i];
        if c == '\n' {
            if lines_done >= 1 {
                push_line_ticker(&mut r, &cur);
            }
            proof {
                let old_done = done;
                done = done.push(cur@);
                if old_done.len() >= 1 {
                    assert(without_header(done) == without_header(old_done).push(cur@));
                    lemma_csv_push(without_header(old_done), cur@);
                } else {
                    assert(without_header(done) =~= Seq::<Seq<char>>::empty());
                }
                assert(views(r@) =~= csv_ticker_list(without_header(done)));
            }
            lines_done = lines_done + 1;
            cur = Vec::new();
        } else {
            cur.push(c);
        }
        i = i + 1;
    }
    assert(chars@.take(i as int) == chars@);
    let ghost all = done.push(cur@);
    if lines_done >= 1 {
        push_line_ticker(&mut r, &cur);
        assert(without_header(all) == without_header(done).push(cur@));
        proof {
            lemma_csv_push(without_header(done), cur@);
        }
    } else {
        assert(without_header(all) =~= Seq::<Seq<char>>::empty());
    }
    assert(views(r@) =~= csv_ticker_list(without_header(all)));
    r
}

/// The ticker universe held in a CSV text, or the built-in list when the
/// text names no valid ticker.
pub fn ticker_universe(content: &str) -> (r: Vec<String>)
    ensures
        views(r@) == (if csv_tickers(content@).len() == 0 {
            fallback_ticker_list()
        } else {
            csv_tickers(content@)
        }),
{
    let tickers = tickers_in_csv(content);
    if tickers.len() == 0 {
        fallback_tickers()
    } else {
        tickers
    }
}


/// Every element comes strictly before the ones after it: sorted, without repeats.
pub open spec fn strictly_sorted(v: Seq<Seq<char>>) -> bool {
    forall|i: int, j: int| 0 <= i < j < v.len() ==> lex_less(#[trigger] v[i], #[trigger] v[j])
}

/// Inserts `t` into the strictly sorted `v` unless it is already there.
fn insert_sorted(v: &mut Vec<Vec<char>>, t: Vec<char>)
    requires
        strictly_sorted(char_views(old(v)@)),
    ensures
        strictly_sorted(char_views(final(v)@)),
        char_views(final(v)@).to_set() == char_views(old(v)@).to_set().insert(t@),
{
    let ghost old_views = char_views(v@);
    let mut j: usize = 0;
    while j < v.len() && lex_before(&v[j], &t)
        invariant
            j <= v.len(),
            v@ == old(v)@,
            forall|k: int| 0 <= k < j ==> lex_less(#[trigger] v@[k]@, t@),
        decreases v.len() - j,
    {
        j = j + 1;
    }
    if j < v.len() && same_chars(&v[j], &t) {
        assert(old_views.to_set().insert(t@) =~= old_views.to_set()) by {
            assert(old_views[j as int] == t@);
        }
        return;
    }
    let ghost tv = t@;
    proof {
        if j < v.len() {
            lemma_lex_total(v@[j as int]@, tv);
        }
    }
    v.insert(j, t);
    let ghost nv = char_views(v@);
    assert(nv =~= old_views.insert(j as int, tv));
    assert forall|a: int, b: int| 0 <= a < b < nv.len() implies lex_less(#[trigger] nv[a], #[trigger] nv[b]) by {
        if b < j {
        } else if b == j {
        } else if a < j {
            assert(lex_less(nv[a], tv));
            if b == j + 1 {
            } else {
                assert(lex_less(old_views[j as int], old_views[b - 1]));
                lemma_lex_transitive(tv, old_views[j as int], old_views[b - 1]);
            }
            lemma_lex_transitive(nv[a], tv, nv[b]);
        } else if a == j {
            if b > j + 1 {
                assert(lex_less(old_views[j as int], old_views[b - 1]));
                lemma_lex_transitive(tv, old_views[j as int], old_views[b - 1]);
            }
        } else {
        }
    }
    assert(nv.to_set() =~= old_views.to_set().insert(tv)) by {
        assert forall|x: Seq<char>| nv.to_set().contains(x) <==> old_views.to_set().insert(tv).contains(x) by {
            if nv.to_set().contains(x) {
                let k = choose|k: int| 0 <= k < nv.len() && nv[k] == x;
                if k < j {
                    assert(old_views[k] == x);
                } else if k > j {
                    assert(old_views[k - 1] == x);
                }
            }
            if old_views.to_set().contains(x) {
                let k = choose|k: int| 0 <= k < old_views.len() && old_views[k] == x;
                if k < j {
                    assert(nv[k] == x);
                } else {
                    assert(nv[k + 1] == x);
                }
            }
            if x == tv {
                assert(nv[j as int] == x);
            }
        }
    }
}

/// The elements of `items`, sorted, each once, as `sort` followed by `dedup` leaves them.
fn sorted_unique(items: &Vec<Vec<char>>) -> (r: Vec<String>)
    ensures
        strictly_sorted(views(r@)),
        views(r@).to_set() == char_views(items@).to_set(),
{
    let mut acc: Vec<Vec<char>> = Vec::new();
    let mut i: usize = 0;
    while i < items.len()
        invariant
            i <= items.len(),
            strictly_sorted(char_views(acc@)),
            char_views(acc@).to_set() == char_views(items@.take(i as int)).to_set(),
        decreases items.len() - i,
    {
        insert_sorted(&mut acc, items[i].clone());
        proof {
            assert(char_views(items@.take(i + 1)) =~= char_views(items@.take(i as int)).push(items@[i as int]@));
            char_views(items@.take(i as int)).lemma_push_to_set_commute(items@[i as int]@);
        }
        i = i + 1;
    }
    assert(items@.take(i as int) == items@);
    let mut r: Vec<String> = Vec::new();
    let mut k: usize = 0;
    while k < acc.len()
        invariant
            k <= acc.len(),
            r.len() == k,
            views(r@) == char_views(acc@).take(k as int),
        decreases acc.len() - k,
    {
        let ghost before = r@;
        r.push(string_of(&acc[k]));
        assert(r@ == before.push(r@[k as int]));
        assert(views(r@) =~= char_views(acc@).take(k + 1));
        k = k + 1;
    }
    assert(char_views(acc@).take(k as int) == char_views(acc@));
    r
}


/// The pieces of a text that `split_inclusive('>')` has produced so far: the
/// finished pieces (each ending in `>`) and the piece in progress.
pub open spec fn pieces_so_far(s: Seq<char>) -> (Seq<Seq<char>>, Seq<char>)
    decreases s.len(),
{
    if s.len() == 0 {
        (Seq::empty(), Seq::empty())
    } else {
        let (done, cur) = pieces_so_far(s.drop_last());
        let cur2 = cur.push(s.last());
        if s.last() == '>' {
            (done.push(cur2), Seq::empty())
        } else {
            (done, cur2)
        }
    }
}

/// The pieces of a text up to and including each `>`, and the rest when it is
/// not empty: what `split_inclusive('>')` yields.
pub open spec fn tag_pieces(s: Seq<char>) -> Seq<Seq<char>> {
    let (done, cur) = pieces_so_far(s);
    if cur.len() == 0 {
        done
    } else {
        done.push(cur)
    }
}

/// A piece of markup as `split_inclusive('>')` makes it: not empty, with no
/// `>` but possibly its last character.
pub open spec fn tag_piece_shape(piece: Seq<char>) -> bool {
    &&& piece.len() > 0
    &&& forall|k: int| 0 <= k < piece.len() - 1 ==> #[trigger] piece[k] != '>'
}

proof fn lemma_pieces_so_far_split(s: Seq<char>)
    ensures
        pieces_so_far(s).0.flatten_alt() + pieces_so_far(s).1 == s,
        forall|i: int|
            0 <= i < pieces_so_far(s).0.len() ==> tag_piece_shape(#[trigger] pieces_so_far(s).0[i])
                && pieces_so_far(s).0[i].last() == '>',
        forall|k: int| 0 <= k < pieces_so_far(s).1.len() ==> #[trigger] pieces_so_far(s).1[k] != '>',
    decreases s.len(),
{
    if s.len() > 0 {
        let p = s.drop_last();
        lemma_pieces_so_far_split(p);
        let (done, cur) = pieces_so_far(p);
        let cur2 = cur.push(s.last());
        assert(done.flatten_alt() + cur2 =~= (done.flatten_alt() + cur).push(s.last()));
        assert(p.push(s.last()) =~= s);
        if s.last() == '>' {
            assert(done.push(cur2).drop_last() == done);
            assert(tag_piece_shape(cur2));
        }
    }
}

/// Splitting markup at each `>` loses and adds nothing: the pieces, put back
/// together in order, give the text; none is empty; and every piece but the
/// last ends with `>`, the only `>` it holds.
pub proof fn lemma_tag_pieces_split(s: Seq<char>)
    ensures
        tag_pieces(s).flatten() == s,
        forall|i: int| 0 <= i < tag_pieces(s).len() ==> tag_piece_shape(#[trigger] tag_pieces(s)[i]),
        forall|i: int| 0 <= i < tag_pieces(s).len() - 1 ==> (#[trigger] tag_pieces(s)[i]).last() == '>',
{
    lemma_pieces_so_far_split(s);
    let (done, cur) = pieces_so_far(s);
    tag_pieces(s).lemma_flatten_and_flatten_alt_are_equivalent();
    if cur.len() == 0 {
        assert(done.flatten_alt() + cur =~= done.flatten_alt());
    } else {
        assert(done.push(cur).drop_last() == done);
        assert(tag_piece_shape(cur));
    }
}

/// Where the reading of the constituents table stands.
pub struct TableScan {
    /// Inside a table row.
    pub in_row: bool,
    /// The first cell of the current row has not been read yet.
    pub first_cell: bool,
    /// Inside the first cell of a row.
    pub in_cell: bool,
    /// Text of the cell read so far.
    pub cell_text: Seq<char>,
    /// Tickers read so far.
    pub found: Seq<Seq<char>>,
    /// The end of the table has been reached.
    pub finished: bool,
}

/// The state before the first piece of the table.
pub open spec fn table_start() -> TableScan {
    TableScan {
        in_row: false,
        first_cell: false,
        in_cell: false,
        cell_text: Seq::empty(),
        found: Seq::empty(),
        finished: false,
    }
}

/// How one piece of the table's markup changes the reading: the end of the
/// table stops it, a row start opens a row, a row end closes it, the first
/// cell of a row opens a cell, the end of that cell yields its trimmed text
/// as a ticker when it is a valid one, and inside the cell the text before
/// any tag is collected.
pub open spec fn table_step(st: TableScan, piece: Seq<char>) -> TableScan {
    if st.finished {
        st
    } else if has_substring(piece, "</table>"@) {
        TableScan { finished: true, ..st }
    } else if has_substring(piece, "<tr"@) {
        TableScan { in_row: true, first_cell: true, ..st }
    } else if has_substring(piece, "</tr>"@) {
        TableScan { in_row: false, ..st }
    } else if st.in_row && st.first_cell && has_substring(piece, "<td"@) {
        TableScan { in_cell: true, cell_text: Seq::empty(), ..st }
    } else if st.in_cell && has_substring(piece, "</td>"@) {
        let t = trim(st.cell_text);
        TableScan {
            found: if is_valid_ticker(t) { st.found.push(t) } else { st.found },
            in_cell: false,
            first_cell: false,
            ..st
        }
    } else if st.in_cell {
        TableScan { cell_text: st.cell_text + before_char(piece, '<'), ..st }
    } else {
        st
    }
}

/// The reading after the given pieces.
pub open spec fn table_scan(pieces: Seq<Seq<char>>) -> TableScan
    decreases pieces.len(),
{
    if pieces.len() == 0 {
        table_start()
    } else {
        table_step(table_scan(pieces.drop_last()), pieces.last())
    }
}

/// The tag that opens the S&P 500 constituents table.
pub open spec fn constituents_marker() -> Seq<char> {
    "<table id=\"constituents\""@
}

/// The tickers read, in order, from the first column of the constituents
/// table of the page (none when the page holds no such table).
pub open spec fn constituent_tickers(html: Seq<char>) -> Seq<Seq<char>> {
    match first_occurrence(html, constituents_marker()) {
        Some(start) => table_scan(tag_pieces(html.skip(start))).found,
        None => Seq::empty(),
    }
}

/// Why no ticker list could be made.
#[derive(Debug, Clone, Copy, PartialEq, Eq, Structural)]
pub enum TickerListError {
    /// The page held no ticker that could be read.
    NoTickers,
}

/// Exec state of the table reading.
struct TableReader {
    in_row: bool,
    first_cell: bool,
    in_cell: bool,
    cell_text: Vec<char>,
    found: Vec<Vec<char>>,
    finished: bool,
}

impl TableReader {
    closed spec fn state(&self) -> TableScan {
        TableScan {
            in_row: self.in_row,
            first_cell: self.first_cell,
            in_cell: self.in_cell,
            cell_text: self.cell_text@,
            found: char_views(self.found@),
            finished: self.finished,
        }
    }
}

/// The literal patterns the table reading looks for.
struct TablePatterns {
    table_end: Vec<char>,
    row_start: Vec<char>,
    row_end: Vec<char>,
    cell_start: Vec<char>,
    cell_end: Vec<char>,
}

impl TablePatterns {
    closed spec fn wf(&self) -> bool {
        &&& self.table_end@ == "</table>"@
        &&& self.row_start@ == "<tr"@
        &&& self.row_end@ == "</tr>"@
        &&& self.cell_start@ == "<td"@
        &&& self.cell_end@ == "</td>"@
    }

    fn new() -> (r: Self)
        ensures
            r.wf(),
    {
        TablePatterns {
            table_end: chars_of("</table>"),
            row_start: chars_of("<tr"),
            row_end: chars_of("</tr>"),
            cell_start: chars_of("<td"),
            cell_end: chars_of("</td>"),
        }
    }
}

/// Applies `table_step` for one piece.
fn read_piece(rd: &mut TableReader, pat: &TablePatterns, piece: &Vec<char>)
    requires
        pat.wf(),
    ensures
        final(rd).state() == table_step(old(rd).state(), piece@),
{
    if rd.finished {
        return;
    }
    if contains_seq(piece, &pat.table_end) {
        rd.finished = true;
    } else if contains_seq(piece, &pat.row_start) {
        rd.in_row = true;
        rd.first_cell = true;
    } else if contains_seq(piece, &pat.row_end) {
        rd.in_row = false;
    } else if rd.in_row && rd.first_cell && contains_seq(piece, &pat.cell_start) {
        rd.in_cell = true;
        rd.cell_text = Vec::new();
    } else if rd.in_cell && contains_seq(piece, &pat.cell_end) {
        let t = trimmed(&rd.cell_text);
        if valid_ticker(&t) {
            rd.found.push(t);
            assert(char_views(rd.found@) =~= char_views(old(rd).found@).push(trim(old(rd).cell_text@)));
        }
        rd.in_cell = false;
        rd.first_cell = false;
    } else if rd.in_cell {
        let mut clean = prefix_before(piece, '<');
        rd.cell_text.append(&mut clean);
    }
}

proof fn lemma_pieces_step(s: Seq<char>, i: int)
    requires
        0 <= i < s.len(),
    ensures
        pieces_so_far(s.take(i + 1)) == ({
            let (done, cur) = pieces_so_far(s.take(i));
            if s[i] == '>' {
                (done.push(cur.push(s[i])), Seq::<char>::empty())
            } else {
                (done, cur.push(s[i]))
            }
        }),
{
    assert(s.take(i + 1).drop_last() == s.take(i));
}

proof fn lemma_table_scan_push(pieces: Seq<Seq<char>>, piece: Seq<char>)
    ensures
        table_scan(pieces.push(piece)) == table_step(table_scan(pieces), piece),
{
    assert(pieces.push(piece).drop_last() == pieces);
}

/// The tickers of the constituents table, in page order (see `constituent_tickers`).
pub fn read_constituents(html: &str) -> (r: Vec<String>)
    ensures
        views(r@) == constituent_tickers(html@),
{
    let chars = chars_of(html);
    let marker = chars_of("<table id=\"constituents\"");
    let start = match find_first(&chars, &marker) {
        Some(i) => i,
        None => {
            return Vec::new();
        },
    };
    let ghost section = chars@.skip(start as int);
    let pat = TablePatterns::new();
    let mut rd = TableReader {
        in_row: false,
        first_cell: false,
        in_cell: false,
        cell_text: Vec::new(),
        found: Vec::new(),
        finished: false,
    };
    assert(char_views(rd.found@) =~= Seq::<Seq<char>>::empty());
    let mut cur: Vec<char> = Vec::new();
    let ghost mut done: Seq<Seq<char>> = Seq::empty();
    let mut i: usize = start;
    while i < chars.len()
        invariant
            start <= i <= chars.len(),
            section == chars@.skip(start as int),
            pat.wf(),
            pieces_so_far(section.take(i - start)) == (done, cur@),
            rd.state() == table_scan(done),
        decreases chars.len() - i,
    {
        proof {
            lemma_pieces_step(section, i - start);
            assert(section[i - start] == chars@[i as int]);
        }
        cur.push(chars[i]);
        if chars[i] == '>' {
            read_piece(&mut rd, &pat, &cur);
            proof {
                lemma_table_scan_push(done, cur@);
                done = done.push(cur@);
            }
            cur = Vec::new();
        }
        i = i + 1;
    }
    assert(section.take(i - start) == section);
    if cur.len() > 0 {
        read_piece(&mut rd, &pat, &cur);
        proof {
            lemma_table_scan_push(done, cur@);
        }
    }
    let mut r: Vec<String> = Vec::new();
    let mut k: usize = 0;
    while k < rd.found.len()
        invariant
            k <= rd.found.len(),
            r.len() == k,
            views(r@) == char_views(rd.found@).take(k as int),
        decreases rd.found.len() - k,
    {
        let ghost before = r@;
        r.push(string_of(&rd.found[k]));
        assert(r@ == before.push(r@[k as int]));
        assert(views(r@) =~= char_views(rd.found@).take(k + 1));
        k = k + 1;
    }
    assert(char_views(rd.found@).take(k as int) == char_views(rd.found@));
    r
}

/// The S&P 500 tickers read from the constituents table of a page, sorted and
/// each listed once; an error when the page yields none.
pub fn sp500_tickers(html: &str) -> (r: Result<Vec<String>, TickerListError>)
    ensures
        r is Err <==> constituent_tickers(html@).len() == 0,
        r matches Ok(v) ==> strictly_sorted(views(v@)) && views(v@).to_set() == constituent_tickers(
            html@,
        ).to_set(),
{
    let found = read_constituents(html);
    if found.len() == 0 {
        return Err(TickerListError::NoTickers);
    }
    let mut items: Vec<Vec<char>> = Vec::new();
    let mut i: usize = 0;
    while i < found.len()
        invariant
            i <= found.len(),
            char_views(items@) == views(found@).take(i as int),
            items.len() == i,
        decreases found.len() - i,
    {
        let ghost before = items@;
        items.push(chars_of(found[i].as_str()));
        assert(items@ == before.push(items@[i as int]));
        assert(char_views(items@) =~= views(found@).take(i + 1));
        i = i + 1;
    }
    assert(views(found@).take(i as int) == views(found@));
    Ok(sorted_unique(&items))
}


proof fn lemma_csv_list_valid(lines: Seq<Seq<char>>)
    ensures
        forall|i: int| 0 <= i < csv_ticker_list(lines).len() ==> is_valid_ticker(#[trigger] csv_ticker_list(lines)[i]),
    decreases lines.len(),
{
    if lines.len() > 0 {
        let prev = lines.drop_last();
        lemma_csv_list_valid(prev);
        let rest = csv_ticker_list(prev);
        let all = csv_ticker_list(lines);
        assert forall|i: int| 0 <= i < all.len() implies is_valid_ticker(#[trigger] all[i]) by {
            if i < rest.len() {
                assert(all[i] == rest[i]);
            }
        }
    }
}

/// Every ticker read from a CSV list is a valid ticker symbol.
pub proof fn lemma_csv_tickers_valid(text: Seq<char>)
    ensures
        forall|i: int| 0 <= i < csv_tickers(text).len() ==> is_valid_ticker(#[trigger] csv_tickers(text)[i]),
{
    lemma_csv_list_valid(without_header(split_lines(text)));
}

proof fn lemma_one_line_has_no_finished_line(s: Seq<char>)
    requires
        !s.contains('\n'),
    ensures
        lines_so_far(s).0.len() == 0,
    decreases s.len(),
{
    if s.len() > 0 {
        let p = s.drop_last();
        if p.contains('\n') {
            let k = choose|k: int| 0 <= k < p.len() && p[k] == '\n';
            assert(s[k] == '\n');
        }
        lemma_one_line_has_no_finished_line(p);
        if s.last() == '\n' {
            assert(s[s.len() - 1] == '\n');
        }
    }
}

/// The first line of a CSV text is its header and never names a ticker: a
/// text without a line feed names none.
pub proof fn lemma_csv_header_skipped(text: Seq<char>)
    requires
        !text.contains('\n'),
    ensures
        csv_tickers(text).len() == 0,
{
    lemma_one_line_has_no_finished_line(text);
    assert(without_header(split_lines(text)) =~= Seq::<Seq<char>>::empty());
}

/// A ticker read from a CSV line comes from its first comma-separated field,
/// so it never holds a comma, and it is trimmed, so it neither starts nor
/// ends with white space.
pub proof fn lemma_csv_field_shape(line: Seq<char>)
    ensures
        !csv_field(line).contains(','),
        csv_field(line).len() > 0 ==> !is_white_space(csv_field(line)[0]) && !is_white_space(
            csv_field(line).last(),
        ),
{
    lemma_before_char_has_no_sep(line, ',');
    lemma_trim_adds_nothing(before_char(line, ','), ',');
    lemma_trim_ends(before_char(line, ','));
}

/// A page without a `<table id="constituents"` tag yields no ticker.
pub proof fn lemma_no_constituents_table(html: Seq<char>)
    ensures
        !has_substring(html, "<table id=\"constituents\""@) ==> constituent_tickers(html).len() == 0,
{
}

/// How the markup moves the reading of the table: once `</table>` is met
/// nothing changes any more; a `<tr` opens a row whose first cell is still to
/// come; `</tr>` closes the row; the first `<td` of a row opens a cell; its
/// `</td>` adds the trimmed cell text when it is a valid ticker; and tickers
/// once read are never lost.
pub proof fn lemma_table_markup(st: TableScan, piece: Seq<char>)
    ensures
        st.finished ==> table_step(st, piece) == st,
        st.found.is_prefix_of(table_step(st, piece).found),
        !st.finished && has_substring(piece, "</table>"@) ==> table_step(st, piece).finished
            && table_step(st, piece).found == st.found,
        !st.finished && !has_substring(piece, "</table>"@) && has_substring(piece, "<tr"@) ==> table_step(
            st,
            piece,
        ).in_row && table_step(st, piece).first_cell && table_step(st, piece).found == st.found,
        !st.finished && !has_substring(piece, "</table>"@) && !has_substring(piece, "<tr"@) && has_substring(
            piece,
            "</tr>"@,
        ) ==> !table_step(st, piece).in_row && table_step(st, piece).found == st.found,
        !st.finished && !has_substring(piece, "</table>"@) && !has_substring(piece, "<tr"@) && !has_substring(
            piece,
            "</tr>"@,
        ) && st.in_row && st.first_cell && has_substring(piece, "<td"@) ==> table_step(st, piece).in_cell
            && table_step(st, piece).cell_text.len() == 0,
        !st.finished && !has_substring(piece, "</table>"@) && !has_substring(piece, "<tr"@) && !has_substring(
            piece,
            "</tr>"@,
        ) && !(st.in_row && st.first_cell && has_substring(piece, "<td"@)) && st.in_cell && has_substring(
            piece,
            "</td>"@,
        ) ==> table_step(st, piece).found == (if is_valid_ticker(trim(st.cell_text)) {
            st.found.push(trim(st.cell_text))
        } else {
            st.found
        }) && !table_step(st, piece).in_cell && !table_step(st, piece).first_cell,
        table_step(st, piece).found.len() > st.found.len() ==> table_step(st, piece).found == st.found.push(
            trim(st.cell_text),
        ) && is_valid_ticker(trim(st.cell_text)) && st.in_cell && has_substring(piece, "</td>"@),
{
    assert(st.found.is_prefix_of(st.found.push(trim(st.cell_text))));
}

/// The built-in ticker list holds valid ticker symbols only.
pub proof fn lemma_fallback_valid()
    ensures
        forall|i: int| 0 <= i < fallback_ticker_list().len() ==> is_valid_ticker(#[trigger] fallback_ticker_list()[i]),
{
    reveal_strlit("AAPL");
    reveal_strlit("MSFT");
    reveal_strlit("TSLA");
    reveal_strlit("NVDA");
    reveal_strlit("AMZN");
    reveal_strlit("META");
    reveal_strlit("GOOGL");
    reveal_strlit("SPY");
    reveal_strlit("QQQ");
    reveal_strlit("AMD");
    reveal_strlit("PLTR");
    reveal_strlit("IWM");
    assert forall|i: int| 0 <= i < fallback_ticker_list().len() implies is_valid_ticker(
        #[trigger] fallback_ticker_list()[i],
    ) by {
        let t = fallback_ticker_list()[i];
        assert forall|k: int| 0 <= k < t.len() implies is_ticker_char(#[trigger] t[k]) by {
        }
    }
}

proof fn lemma_table_found_valid(pieces: Seq<Seq<char>>)
    ensures
        forall|i: int| 0 <= i < table_scan(pieces).found.len() ==> is_valid_ticker(#[trigger] table_scan(pieces).found[i]),
    decreases pieces.len(),
{
    if pieces.len() > 0 {
        let prev = pieces.drop_last();
        lemma_table_found_valid(prev);
        let st = table_scan(prev);
        let a = st.found;
        let b = table_scan(pieces).found;
        assert(b == a || (b == a.push(trim(st.cell_text)) && is_valid_ticker(trim(st.cell_text))));
        assert forall|i: int| 0 <= i < b.len() implies is_valid_ticker(#[trigger] b[i]) by {
            if i < a.len() {
                assert(b[i] == a[i]);
            }
        }
    }
}

/// Every ticker read from the constituents table is a valid ticker symbol.
pub proof fn lemma_constituents_valid(html: Seq<char>)
    ensures
        forall|i: int| 0 <= i < constituent_tickers(html).len() ==> is_valid_ticker(#[trigger] constituent_tickers(html)[i]),
{
    if let Some(start) = first_occurrence(html, constituents_marker()) {
        lemma_table_found_valid(tag_pieces(html.skip(start)));
    }
}

/// A sorted list without repeats names each ticker once.
pub proof fn lemma_sorted_has_no_repeats(v: Seq<Seq<char>>)
    requires
        strictly_sorted(v),
    ensures
        forall|i: int, j: int| 0 <= i < j < v.len() ==> v[i] != v[j],
{
    assert forall|i: int, j: int| 0 <= i < j < v.len() implies v[i] != v[j] by {
        lemma_lex_irreflexive(v[i]);
    }
}

} // verus!
