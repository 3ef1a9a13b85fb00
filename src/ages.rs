//! Age brackets of persons, and how many are minors or adults.
use vstd::prelude::*;

verus! {

/// The bracket that an age falls in.
#[derive(Clone, Copy, Debug, PartialEq, Eq, Structural)]
pub enum AgeBracket {
    /// under 13
    Child,
    /// 13 to 17
    Youth,
    /// 18 to 59
    Adult,
    /// 60 and over
    Senior,
}

/// A person as a row of a persons table: every field may be missing.
#[derive(Debug)]
pub struct Person {
    pub id: Option<u32>,
    pub name: Option<String>,
    pub age: Option<u32>,
    pub is_married: Option<bool>,
    pub city: Option<String>,
    pub state: Option<String>,
    pub country: Option<String>,
    pub age_bracket: Option<AgeBracket>,
}

pub open spec fn bracket_of(age: u32) -> AgeBracket {
    if age < 13 {
        AgeBracket::Child
    } else if age <= 17 {
        AgeBracket::Youth
    } else if age <= 59 {
        AgeBracket::Adult
    } else {
        AgeBracket::Senior
    }
}

pub open spec fn is_minor_bracket(b: AgeBracket) -> bool {
    b == AgeBracket::Child || b == AgeBracket::Youth
}

impl Person {
    /// Sets the age bracket from the age: none where the age is missing.
    pub fn set_age_bracket(&mut self)
        ensures
            final(self).age_bracket == (match old(self).age {
                Some(a) => Some(bracket_of(a)),
                None => None,
            }),
            final(self).id == old(self).id,
            final(self).name == old(self).name,
            final(self).age == old(self).age,
            final(self).is_married == old(self).is_married,
            final(self).city == old(self).city,
            final(self).state == old(self).state,
            final(self).country == old(self).country,
    {
        self.age_bracket = match self.age {
            Some(a) => {
                if a < 13 {
                    Some(AgeBracket::Child)
                } else if 13 <= a && a <= 17 {
                    Some(AgeBracket::Youth)
                } else if 18 <= a && a <= 59 {
                    Some(AgeBracket::Adult)
                } else {
                    Some(AgeBracket::Senior)
                }
            },
            None => None,
        };
    }
}

/// The persons whose bracket is set and is a minor's (`minor == true`) or
/// an adult's (`minor == false`).
pub open spec fn in_group(persons: Seq<Person>, minor: bool) -> Seq<Person> {
    persons.filter(
        |p: Person|
            match p.age_bracket {
                Some(b) => is_minor_bracket(b) == minor,
                None => false,
            },
    )
}

/// How many persons are minors (child or youth) and how many adults
/// (adult or senior); a person without a bracket counts in neither.
#[derive(Debug)]
pub struct DemographicCount {
    pub minors: usize,
    pub adults: usize,
}

impl DemographicCount {
    /// Counts the minors and the adults among `persons` by their brackets.
    pub fn new(persons: &Vec<Person>) -> (r: Self)
        ensures
            r.minors == in_group(persons@, true).len(),
            r.adults == in_group(persons@, false).len(),
    {
        let mut minors: usize = 0;
        let mut adults: usize = 0;
        let mut i: usize = 0;
        while i < persons.len()
            invariant
                i <= persons.len(),
                minors == in_group(persons@.take(i as int), true).len(),
                adults == in_group(persons@.take(i as int), false).len(),
                minors + adults <= i,
            decreases persons.len() - i,
        {
            proof {
                reveal(Seq::filter);
                assert(persons@.take(i + 1).drop_last() =~= persons@.take(i as int));
                assert(persons@.take(i + 1).last() == persons@[i as int]);
            }
            if let Some(bracket) = &persons[i].age_bracket {
                match bracket {
                    AgeBracket::Child => minors += 1,
                    AgeBracket::Youth => minors += 1,
                    AgeBracket::Adult => adults += 1,
                    AgeBracket::Senior => adults += 1,
                }
            }
            i = i + 1;
        }
        assert(persons@.take(persons.len() as int) =~= persons@);
        DemographicCount { minors, adults }
    }
}

} // verus!
