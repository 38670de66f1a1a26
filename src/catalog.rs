//! The entry catalog and the selector's decisions.
//!
//! A catalog is text with one record per line: a label, a target, and any
//! number of extra tokens, separated by blanks. Lines without a word are
//! skipped, and the text after the last newline is ignored.

use vstd::prelude::*;
use vstd::utf8::{decode_utf8, valid_utf8};
use crate::error::Error;
use crate::text::{
    join_spaces, join_with_spaces,
    lemma_views_skip, strings_from, lemma_split_on_nonempty, parse_u64, split_on, split_on_char, views,
    words, words_of, unsigned_number,
};

verus! {

/// One record of the catalog.
#[derive(Debug, Clone, PartialEq, Eq)]
pub struct CatalogEntry {
    pub label: String,
    /// `None` when the line holds a label alone.
    pub target: Option<String>,
    pub extra: Vec<String>,
}

/// `e` is the entry that a line with the words `ws` describes.
pub open spec fn entry_of_words(e: CatalogEntry, ws: Seq<Seq<char>>) -> bool {
    &&& ws.len() > 0
    &&& e.label@ == ws[0]
    &&& if ws.len() > 1 {
        e.target is Some && e.target->0@ == ws[1]
    } else {
        e.target is None
    }
    &&& views(e.extra@) == if ws.len() > 2 {
        ws.skip(2)
    } else {
        Seq::<Seq<char>>::empty()
    }
}

/// The word lists of the lines that hold at least one word, in order.
pub open spec fn records(lines: Seq<Seq<char>>) -> Seq<Seq<Seq<char>>>
    decreases lines.len(),
{
    if lines.len() == 0 {
        Seq::<Seq<Seq<char>>>::empty()
    } else {
        let prev = records(lines.drop_last());
        let ws = words(lines.last());
        if ws.len() > 0 {
            prev.push(ws)
        } else {
            prev
        }
    }
}

/// The records of a catalog text: its lines, the last one dropped, that
/// hold at least one word.
pub open spec fn catalog_records(text: Seq<char>) -> Seq<Seq<Seq<char>>> {
    records(split_on(text, '\n').drop_last())
}

/// The text after a catalog's final newline adds no entry, and a
/// newline-terminated catalog keeps every line that holds a word: its
/// records are those of all the lines before the final newline. No record
/// is empty.
pub proof fn lemma_catalog_newline_terminated(body: Seq<char>)
    ensures
        catalog_records(body.push('\n')) == records(split_on(body, '\n')),
        forall|i: int| 0 <= i < catalog_records(body.push('\n')).len()
            ==> #[trigger] catalog_records(body.push('\n'))[i].len() > 0,
{
    let t = body.push('\n');
    assert(t.drop_last() =~= body);
    assert(split_on(t, '\n').drop_last() =~= split_on(body, '\n'));
    lemma_records_nonempty(split_on(body, '\n'));
}

/// Every record holds at least one word.
pub proof fn lemma_records_nonempty(lines: Seq<Seq<char>>)
    ensures
        forall|i: int| 0 <= i < records(lines).len() ==> #[trigger] records(lines)[i].len() > 0,
    decreases lines.len(),
{
    if lines.len() > 0 {
        let prev = records(lines.drop_last());
        lemma_records_nonempty(lines.drop_last());
        assert forall|i: int| 0 <= i < records(lines).len() implies #[trigger] records(lines)[i].len()
            > 0 by {
            if i < prev.len() {
                assert(records(lines)[i] == prev[i]);
            }
        }
    }
}

/// The words of an entry: its label, its target if any, its extra tokens.
pub open spec fn entry_words(e: CatalogEntry) -> Seq<Seq<char>> {
    seq![e.label@] + match e.target {
        Some(t) => seq![t@],
        None => Seq::<Seq<char>>::empty(),
    } + views(e.extra@)
}

/// The text offered to the external chooser: one line per entry, its
/// words joined by spaces.
pub open spec fn chooser_text(es: Seq<CatalogEntry>) -> Seq<char>
    decreases es.len(),
{
    if es.len() == 0 {
        Seq::<char>::empty()
    } else {
        chooser_text(es.drop_last()) + join_spaces(entry_words(es.last())) + "\n"@
    }
}

impl CatalogEntry {
    /// The entry written as one line: its words joined by spaces.
    pub fn line(&self) -> (r: String)
        ensures
            r@ == join_spaces(entry_words(*self)),
    {
        let mut ws: Vec<String> = Vec::new();
        ws.push(self.label.clone());
        match &self.target {
            Some(t) => ws.push(t.clone()),
            None => {},
        }
        let ghost head = ws@;
        let mut j: usize = 0;
        while j < self.extra.len()
            invariant
                j <= self.extra@.len(),
                ws@ == head + self.extra@.take(j as int),
            decreases self.extra@.len() - j,
        {
            ws.push(self.extra[j].clone());
            assert(self.extra@.take(j + 1) =~= self.extra@.take(j as int).push(self.extra@[j as int]));
            j = j + 1;
        }
        assert(self.extra@.take(self.extra@.len() as int) =~= self.extra@);
        assert(views(ws@) =~= entry_words(*self));
        join_with_spaces(&ws)
    }
}

/// The text to offer the external chooser: every entry on a line of its
/// own, each line ended by a newline.
pub fn chooser_input(entries: &Vec<CatalogEntry>) -> (r: String)
    ensures
        r@ == chooser_text(entries@),
{
    let mut out = String::new();
    let mut i: usize = 0;
    assert(entries@.take(0) =~= Seq::<CatalogEntry>::empty());
    while i < entries.len()
        invariant
            i <= entries@.len(),
            out@ == chooser_text(entries@.take(i as int)),
        decreases entries@.len() - i,
    {
        proof {
            let t = entries@.take(i + 1);
            assert(t.drop_last() =~= entries@.take(i as int));
            assert(t.last() == entries@[i as int]);
        }
        let line = entries[i].line();
        out = out.concat(line.as_str()).concat("\n");
        i = i + 1;
    }
    assert(entries@.take(entries@.len() as int) =~= entries@);
    out
}

/// The selector's result: the chosen target and the extra tokens.
#[derive(Debug, Clone, PartialEq, Eq)]
pub struct Selection {
    pub target: Option<String>,
    pub extra: Vec<String>,
}

impl Selection {
    /// The chosen target; an entry without one cannot be played.
    pub fn chosen_target(&self) -> (r: Result<String, Error>)
        ensures
            self.target is Some ==> r == Ok::<String, Error>(self.target->0),
            self.target is None ==> (r matches Err(Error::ExecuteErr(m)) && m@
                == "the chosen entry has no target"@),
    {
        match &self.target {
            Some(t) => Ok(t.clone()),
            None => Err(Error::ExecuteErr(String::from_str("the chosen entry has no target"))),
        }
    }
}

/// Builds the entry of a line from its words.
fn entry_from_words(ws: &Vec<String>) -> (r: CatalogEntry)
    requires
        ws@.len() > 0,
    ensures
        entry_of_words(r, views(ws@)),
{
    let label = ws[0].clone();
    let target = if ws.len() > 1 {
        Some(ws[1].clone())
    } else {
        None
    };
    let extra = if ws.len() > 2 {
        strings_from(ws, 2)
    } else {
        Vec::new()
    };
    proof {
        if ws@.len() > 2 {
            lemma_views_skip(ws@, 2);
        } else {
            assert(views(extra@) =~= Seq::<Seq<char>>::empty());
        }
    }
    CatalogEntry { label, target, extra }
}

/// Reads a catalog text into its entries.
pub fn parse_catalog(text: &str) -> (r: Vec<CatalogEntry>)
    ensures
        r@.len() == catalog_records(text@).len(),
        forall|i: int| 0 <= i < r@.len() ==> entry_of_words(#[trigger] r@[i], catalog_records(text@)[i]),
{
    let lines = split_on_char(text, '\n');
    proof {
        lemma_split_on_nonempty(text@, '\n');
    }
    let n = lines.len() - 1;
    let ghost all = views(lines@).drop_last();
    let mut out: Vec<CatalogEntry> = Vec::new();
    let mut i: usize = 0;
    assert(all.take(0) =~= Seq::<Seq<char>>::empty());
    while i < n
        invariant
            n + 1 == lines@.len(),
            all == views(lines@).drop_last(),
            i <= n,
            out@.len() == records(all.take(i as int)).len(),
            forall|k: int| 0 <= k < out@.len() ==> entry_of_words(#[trigger] out@[k], records(all.take(i as int))[k]),
        decreases n - i,
    {
        let ws = words_of(lines[i].as_str());
        proof {
            assert(all.take(i + 1).drop_last() =~= all.take(i as int));
            assert(all.take(i + 1).last() == lines@[i as int]@);
        }
        if ws.len() > 0 {
            let e = entry_from_words(&ws);
            out.push(e);
        }
        i = i + 1;
    }
    assert(all.take(n as int) =~= all);
    out
}

/// Relies on std's `String::from_utf8`, which accepts exactly the byte
/// sequences that are valid UTF-8 and decodes them.
#[verifier::external_body]
fn decode_text(bytes: Vec<u8>) -> (r: Option<String>)
    ensures
        r is Some <==> valid_utf8(bytes@),
        r is Some ==> r->0@ == decode_utf8(bytes@),
{
    String::from_utf8(bytes).ok()
}

/// The catalog file's path from the configured value: there is no catalog
/// when none is set.
pub fn catalog_path(configured: Option<&str>) -> (r: Result<String, Error>)
    ensures
        configured is Some && configured->0@.len() > 0 ==> (r is Ok && r->Ok_0@
            == configured->0@),
        configured is None || configured->0@.len() == 0 ==> (r matches Err(Error::ExecuteErr(m))
            && m@ == "no catalog file configured"@),
{
    match configured {
        Some(p) => if p.unicode_len() > 0 {
            Ok(String::from_str(p))
        } else {
            Err(Error::ExecuteErr(String::from_str("no catalog file configured")))
        },
        None => Err(Error::ExecuteErr(String::from_str("no catalog file configured"))),
    }
}

/// Reads the entries of a catalog file's contents; contents that are not
/// UTF-8 are refused.
pub fn load_catalog(bytes: Vec<u8>) -> (r: Result<Vec<CatalogEntry>, Error>)
    ensures
        r is Err <==> !valid_utf8(bytes@),
        r is Err ==> r->Err_0 is UtfErr,
        r is Ok ==> ({
            let recs = catalog_records(decode_utf8(bytes@));
            &&& r->Ok_0@.len() == recs.len()
            &&& forall|i: int| 0 <= i < recs.len() ==> entry_of_words(#[trigger] r->Ok_0@[i], recs[i])
        }),
{
    match decode_text(bytes) {
        Some(text) => Ok(parse_catalog(text.as_str())),
        None => Err(Error::UtfErr(String::from_str("catalog is not valid UTF-8"))),
    }
}

/// The number typed at the numbered menu: one word, all digits.
pub open spec fn menu_choice(input: Seq<char>) -> Option<int> {
    if words(input).len() == 1 {
        unsigned_number(words(input)[0])
    } else {
        None
    }
}

/// Picks the entry whose 1-based menu number the user typed. The input may
/// carry blanks around the number.
pub fn select_by_number(entries: &Vec<CatalogEntry>, input: &str) -> (r: Result<Selection, Error>)
    ensures
        r is Ok <==> (menu_choice(input@) is Some && 1 <= menu_choice(input@)->0 <= entries@.len()),
        r is Ok ==> ({
            let e = entries@[menu_choice(input@)->0 - 1];
            r->Ok_0.target == e.target && r->Ok_0.extra@ == e.extra@
        }),
        r is Err ==> r->Err_0 is IntErr,
{
    let ws = words_of(input);
    if ws.len() != 1 {
        return Err(Error::IntErr(String::from_str("expected one number")));
    }
    assert(views(ws@)[0] == ws@[0]@);
    assert(menu_choice(input@) == unsigned_number(ws@[0]@));
    match parse_u64(ws[0].as_str()) {
        None => Err(Error::IntErr(String::from_str("not a number"))),
        Some(k) => {
            if k == 0 || k > entries.len() as u64 {
                Err(Error::IntErr(String::from_str("no entry with that number")))
            } else {
                let e = &entries[(k - 1) as usize];
                let target = match &e.target {
                    Some(t) => Some(t.clone()),
                    None => None,
                };
                let extra = strings_from(&e.extra, 0);
                assert(e.extra@.skip(0) =~= e.extra@);
                Ok(Selection { target, extra })
            }
        },
    }
}

/// Reads the line that the external chooser printed: its second word is
/// the target and the words after it are the extra tokens.
pub fn parse_chooser_output(out: Option<String>) -> (r: Result<Selection, Error>)
    ensures
        out is None ==> (r matches Err(Error::ExecuteErr(m)) && m@ == "no stdout"@),
        out is Some && words(out->0@).len() < 2 ==> (r matches Err(Error::ExecuteErr(m)) && m@
            == "not enough values"@),
        out is Some && words(out->0@).len() >= 2 ==> (r matches Ok(s) && s.target is Some
            && s.target->0@ == words(out->0@)[1] && views(s.extra@) == words(out->0@).skip(2)),
{
    match out {
        None => Err(Error::ExecuteErr(String::from_str("no stdout"))),
        Some(line) => {
            let ws = words_of(line.as_str());
            if ws.len() < 2 {
                Err(Error::ExecuteErr(String::from_str("not enough values")))
            } else {
                let target = ws[1].clone();
                let extra = strings_from(&ws, 2);
                proof {
                    lemma_views_skip(ws@, 2);
                }
                Ok(Selection { target: Some(target), extra })
            }
        },
    }
}

} // verus!
