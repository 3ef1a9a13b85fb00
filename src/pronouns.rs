//! Counting the gendered pronouns among the tokens of a text.
use rayon::iter::IntoParallelRefIterator;
use rayon::iter::ParallelIterator;
use vstd::prelude::*;
use vstd::string::StrSliceExecFns;

verus! {

/// One of the two fixed sets of pronouns that are counted.
#[derive(Clone, Copy, Debug, PartialEq, Eq, Structural)]
pub enum PronounSet {
    /// `he`, `him`, `his`
    Male,
    /// `she`, `her`, `hers`
    Female,
}

/// Whether `w` is one of the words of `set`.
pub open spec fn in_pronoun_set(set: PronounSet, w: Seq<char>) -> bool {
    match set {
        PronounSet::Male => {
            ||| w == seq!['h', 'e']
            ||| w == seq!['h', 'i', 'm']
            ||| w == seq!['h', 'i', 's']
        },
        PronounSet::Female => {
            ||| w == seq!['s', 'h', 'e']
            ||| w == seq!['h', 'e', 'r']
            ||| w == seq!['h', 'e', 'r', 's']
        },
    }
}

/// The tokens that are words of `set`, in order.
pub open spec fn pronouns_in(tokens: Seq<Seq<char>>, set: PronounSet) -> Seq<Seq<char>> {
    tokens.filter(|w: Seq<char>| in_pronoun_set(set, w))
}

/// The views of a sequence of string slices.
pub open spec fn str_views(tokens: Seq<&str>) -> Seq<Seq<char>> {
    tokens.map_values(|t: &str| t@)
}

impl PronounSet {
    /// Whether `token` is, exactly, one of the words of this set.
    pub fn contains(&self, token: &str) -> (r: bool)
        ensures
            r == in_pronoun_set(*self, token@),
    {
        let n = token.unicode_len();
        let ghost w = token@;
        match self {
            PronounSet::Male => {
                if n == 2 {
                    let r = token.get_char(0) == 'h' && token.get_char(1) == 'e';
                    proof {
                        if r {
                            assert(w =~= seq!['h', 'e']);
                        }
                    }
                    r
                } else if n == 3 {
                    let c2 = token.get_char(2);
                    let r = token.get_char(0) == 'h' && token.get_char(1) == 'i' && (c2 == 'm'
                        || c2 == 's');
                    proof {
                        if r && c2 == 'm' {
                            assert(w =~= seq!['h', 'i', 'm']);
                        } else if r {
                            assert(w =~= seq!['h', 'i', 's']);
                        }
                    }
                    r
                } else {
                    false
                }
            },
            PronounSet::Female => {
                if n == 3 {
                    let c0 = token.get_char(0);
                    let c1 = token.get_char(1);
                    let c2 = token.get_char(2);
                    let r = (c0 == 's' && c1 == 'h' && c2 == 'e') || (c0 == 'h' && c1 == 'e' && c2
                        == 'r');
                    proof {
                        if c0 == 's' && c1 == 'h' && c2 == 'e' {
                            assert(w =~= seq!['s', 'h', 'e']);
                        } else if r {
                            assert(w =~= seq!['h', 'e', 'r']);
                        }
                    }
                    r
                } else if n == 4 {
                    let r = token.get_char(0) == 'h' && token.get_char(1) == 'e' && token.get_char(
                        2,
                    ) == 'r' && token.get_char(3) == 's';
                    proof {
                        if r {
                            assert(w =~= seq!['h', 'e', 'r', 's']);
                        }
                    }
                    r
                } else {
                    false
                }
            },
        }
    }
}

/// Counts the tokens that are words of `set`, in parallel.
///
/// Relies on rayon's `par_iter().filter(..).count()`: the result is the
/// number of items that the predicate accepts. The predicate is
/// `PronounSet::contains`, verified above.
#[verifier::external_body]
fn par_count_in_set(tokens: &Vec<&str>, set: PronounSet) -> (n: usize)
    ensures
        n == pronouns_in(str_views(tokens@), set).len(),
{
    tokens.par_iter().filter(|t| set.contains(t)).count()
}

/// Counts the male and the female pronouns among `tokens`: the tokens equal
/// to `he`, `him` or `his`, and those equal to `she`, `her` or `hers`.
pub fn count_gendered_pronouns(tokens: Vec<&str>) -> (r: (usize, usize))
    ensures
        r.0 == pronouns_in(str_views(tokens@), PronounSet::Male).len(),
        r.1 == pronouns_in(str_views(tokens@), PronounSet::Female).len(),
        r.0 + r.1 <= tokens@.len(),
{
    let num_male_pronouns = par_count_in_set(&tokens, PronounSet::Male);
    let num_female_pronouns = par_count_in_set(&tokens, PronounSet::Female);
    proof {
        lemma_pronoun_counts_bounded(str_views(tokens@));
    }
    (num_male_pronouns, num_female_pronouns)
}

/// No word is in both pronoun sets.
pub proof fn lemma_pronoun_sets_disjoint(w: Seq<char>)
    ensures
        !(in_pronoun_set(PronounSet::Male, w) && in_pronoun_set(PronounSet::Female, w)),
{
    if in_pronoun_set(PronounSet::Male, w) {
        assert(w[0] == 'h');
        if w.len() == 3 {
            assert(w[1] == 'i');
            assert(seq!['s', 'h', 'e'][0] == 's');
            assert(seq!['h', 'e', 'r'][1] == 'e');
        }
    }
}

/// For every sequence of tokens, the male and female counts together are at
/// most the number of tokens, and every counted token is a word of the set
/// it was counted for.
pub proof fn lemma_pronoun_counts_bounded(tokens: Seq<Seq<char>>)
    ensures
        pronouns_in(tokens, PronounSet::Male).len() + pronouns_in(tokens, PronounSet::Female).len()
            <= tokens.len(),
        forall|i: int|
            0 <= i < pronouns_in(tokens, PronounSet::Male).len() ==> in_pronoun_set(
                PronounSet::Male,
                #[trigger] pronouns_in(tokens, PronounSet::Male)[i],
            ),
        forall|i: int|
            0 <= i < pronouns_in(tokens, PronounSet::Female).len() ==> in_pronoun_set(
                PronounSet::Female,
                #[trigger] pronouns_in(tokens, PronounSet::Female)[i],
            ),
    decreases tokens.len(),
{
    broadcast use Seq::lemma_filter_pred;

    reveal(Seq::filter);
    if tokens.len() > 0 {
        lemma_pronoun_counts_bounded(tokens.drop_last());
        lemma_pronoun_sets_disjoint(tokens.last());
    }
}

} // verus!
