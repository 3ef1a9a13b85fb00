//! News records and the per-record step of the pipeline.
use crate::pronouns::count_gendered_pronouns;
use crate::pronouns::pronouns_in;
use crate::pronouns::str_views;
use crate::pronouns::PronounSet;
use crate::text::clean_text;
use crate::text::normalized;
use crate::text::tokenize;
use crate::text::tokens_of;
use crate::text::views_of;
use rayon::iter::IndexedParallelIterator;
use rayon::iter::IntoParallelRefIterator;
use rayon::iter::ParallelIterator;
use vstd::prelude::*;

verus! {

/// An input row: an article with its metadata.
pub struct Record {
    pub id: u32,
    pub publication: String,
    pub author: String,
    pub date: String,
    pub content: String,
}

/// An output row: the article's metadata and its two pronoun counts.
pub struct RecordProcessed {
    pub id: u32,
    pub publication: String,
    pub author: String,
    pub date: String,
    pub num_male_pronouns: usize,
    pub num_female_pronouns: usize,
}

pub ghost struct RecordView {
    pub id: u32,
    pub publication: Seq<char>,
    pub author: Seq<char>,
    pub date: Seq<char>,
    pub content: Seq<char>,
}

pub ghost struct RecordProcessedView {
    pub id: u32,
    pub publication: Seq<char>,
    pub author: Seq<char>,
    pub date: Seq<char>,
    pub num_male_pronouns: nat,
    pub num_female_pronouns: nat,
}

impl View for Record {
    type V = RecordView;

    open spec fn view(&self) -> RecordView {
        RecordView {
            id: self.id,
            publication: self.publication@,
            author: self.author@,
            date: self.date@,
            content: self.content@,
        }
    }
}

impl View for RecordProcessed {
    type V = RecordProcessedView;

    open spec fn view(&self) -> RecordProcessedView {
        RecordProcessedView {
            id: self.id,
            publication: self.publication@,
            author: self.author@,
            date: self.date@,
            num_male_pronouns: self.num_male_pronouns as nat,
            num_female_pronouns: self.num_female_pronouns as nat,
        }
    }
}

/// The number of words of `set` among the tokens of the normalized `text`.
pub open spec fn pronoun_count(text: Seq<char>, set: PronounSet) -> nat {
    pronouns_in(tokens_of(normalized(text)), set).len()
}

/// What the pipeline makes of one record: the metadata carried through,
/// and the pronoun counts of its normalized content.
pub open spec fn processed(r: RecordView) -> RecordProcessedView {
    RecordProcessedView {
        id: r.id,
        publication: r.publication,
        author: r.author,
        date: r.date,
        num_male_pronouns: pronoun_count(r.content, PronounSet::Male),
        num_female_pronouns: pronoun_count(r.content, PronounSet::Female),
    }
}

/// The string slices of `owned`, in order.
fn borrow_all(owned: &Vec<String>) -> (r: Vec<&str>)
    ensures
        str_views(r@) == views_of(owned@),
{
    let mut r: Vec<&str> = Vec::new();
    let mut i: usize = 0;
    while i < owned.len()
        invariant
            i <= owned.len(),
            str_views(r@) == views_of(owned@).take(i as int),
        decreases owned.len() - i,
    {
        let ghost before = str_views(r@);
        let t = owned[i].as_str();
        r.push(t);
        assert(str_views(r@) =~= before.push(t@));
        i = i + 1;
        assert(str_views(r@) =~= views_of(owned@).take(i as int));
    }
    assert(views_of(owned@).take(owned.len() as int) =~= views_of(owned@));
    r
}

/// Counts the male and the female pronouns among the tokens of the
/// normalized `text`.
pub fn count_text_pronouns(text: &str) -> (r: (usize, usize))
    ensures
        r.0 == pronoun_count(text@, PronounSet::Male),
        r.1 == pronoun_count(text@, PronounSet::Female),
{
    let cleaned = clean_text(text);
    let owned = tokenize(cleaned.as_str());
    let tokens = borrow_all(&owned);
    count_gendered_pronouns(tokens)
}

/// Normalizes, tokenizes and counts the content of one record.
pub fn process_record(record: &Record) -> (r: RecordProcessed)
    ensures
        r@ == processed(record@),
{
    let (n_m, n_f) = count_text_pronouns(record.content.as_str());
    RecordProcessed {
        id: record.id,
        publication: record.publication.clone(),
        author: record.author.clone(),
        date: record.date.clone(),
        num_male_pronouns: n_m,
        num_female_pronouns: n_f,
    }
}

/// Processes each record, in parallel.
///
/// Relies on rayon's `par_iter().map(..).collect_into_vec(..)`: the target
/// holds the image of each item, in the order of the items. The map is
/// `process_record`, verified above.
#[verifier::external_body]
fn par_process(records: &Vec<Record>) -> (r: Vec<RecordProcessed>)
    ensures
        r@.len() == records@.len(),
        forall|i: int| 0 <= i < r@.len() ==> #[trigger] r@[i]@ == processed(records@[i]@),
{
    let mut out = Vec::new();
    records.par_iter().map(process_record).collect_into_vec(&mut out);
    out
}

/// Processes a whole batch of records, in parallel. The result holds one
/// processed record for each input record, in the input order.
pub fn process_records(records: &Vec<Record>) -> (r: Vec<RecordProcessed>)
    ensures
        r@.len() == records@.len(),
        forall|i: int| 0 <= i < r@.len() ==> #[trigger] r@[i]@ == processed(records@[i]@),
        forall|i: int| 0 <= i < r@.len() ==> #[trigger] r@[i].id == records@[i].id,
{
    let r = par_process(records);
    assert forall|i: int| 0 <= i < r@.len() implies #[trigger] r@[i].id == records@[i].id by {
        assert(r@[i]@ == processed(records@[i]@));
    }
    r
}

/// A record reduced to what the counts need.
pub struct TextRecord {
    pub id: u32,
    pub content: String,
}

/// The pronoun counts of one text record.
#[derive(Clone, Copy, Debug, PartialEq, Eq, Structural)]
pub struct RecordCounts {
    pub id: u32,
    pub n_m: u64,
    pub n_f: u64,
}

/// Counts the pronouns of each record, one after the other. The result
/// holds the counts of each record, in the input order.
pub fn get_pronoun_counts(records: &Vec<TextRecord>) -> (r: Vec<RecordCounts>)
    ensures
        r@.len() == records@.len(),
        forall|i: int|
            0 <= i < r@.len() ==> {
                &&& (#[trigger] r@[i]).id == records@[i].id
                &&& r@[i].n_m == pronoun_count(records@[i].content@, PronounSet::Male)
                &&& r@[i].n_f == pronoun_count(records@[i].content@, PronounSet::Female)
            },
{
    let mut result: Vec<RecordCounts> = Vec::new();
    let mut i: usize = 0;
    while i < records.len()
        invariant
            i <= records.len(),
            result@.len() == i,
            forall|j: int|
                0 <= j < i ==> {
                    &&& (#[trigger] result@[j]).id == records@[j].id
                    &&& result@[j].n_m == pronoun_count(records@[j].content@, PronounSet::Male)
                    &&& result@[j].n_f == pronoun_count(records@[j].content@, PronounSet::Female)
                },
        decreases records.len() - i,
    {
        let record = &records[i];
        let (n_m, n_f) = count_text_pronouns(record.content.as_str());
        result.push(RecordCounts { id: record.id, n_m: n_m as u64, n_f: n_f as u64 });
        i = i + 1;
    }
    result
}

} // verus!
