//! The catalog of tracked achievements, grouped by category, and the
//! selection of categories by a short token.
use vstd::prelude::*;
use vstd::string::StringExecFns;

verus! {

/// A tracked achievement. `title` is the text that the character page shows
/// for it; the three times are epoch seconds, with
/// `release_time <= strict_deadline <= lenient_deadline` expected.
pub struct AchievementDefinition {
    pub sort_index: i64,
    pub title: String,
    pub release_time: i64,
    pub strict_deadline: i64,
    pub lenient_deadline: i64,
}

/// The mathematical value of an [`AchievementDefinition`].
pub struct DefinitionModel {
    pub sort_index: i64,
    pub title: Seq<char>,
    pub release_time: i64,
    pub strict_deadline: i64,
    pub lenient_deadline: i64,
}

impl View for AchievementDefinition {
    type V = DefinitionModel;

    open spec fn view(&self) -> DefinitionModel {
        DefinitionModel {
            sort_index: self.sort_index,
            title: self.title@,
            release_time: self.release_time,
            strict_deadline: self.strict_deadline,
            lenient_deadline: self.lenient_deadline,
        }
    }
}

/// The definitions of `defs` as values, in order.
pub open spec fn definitions_model(defs: Seq<&AchievementDefinition>) -> Seq<DefinitionModel> {
    defs.map_values(|d: &AchievementDefinition| d@)
}

/// The groups of tracked achievements.
#[derive(Debug, Clone, Copy, PartialEq, Eq, Structural)]
pub enum Category {
    Ultimate,
    Savage,
    BlueMage,
    Another,
    Public,
    Deep,
}

/// The categories that a selection token asks for: `all` asks for every one,
/// `u`, `s`, `bm`, `ad`, `pd` and `dd` for one each, any other token for none.
pub open spec fn token_categories(token: Seq<char>) -> Seq<Category> {
    if token == "all"@ {
        seq![
            Category::Ultimate,
            Category::Savage,
            Category::BlueMage,
            Category::Another,
            Category::Public,
            Category::Deep,
        ]
    } else if token == "u"@ {
        seq![Category::Ultimate]
    } else if token == "s"@ {
        seq![Category::Savage]
    } else if token == "bm"@ {
        seq![Category::BlueMage]
    } else if token == "ad"@ {
        seq![Category::Another]
    } else if token == "pd"@ {
        seq![Category::Public]
    } else if token == "dd"@ {
        seq![Category::Deep]
    } else {
        Seq::empty()
    }
}

/// The categories that `token` selects, in the order in which they are reported.
pub fn categories_for(token: &str) -> (r: Vec<Category>)
    ensures
        r@ == token_categories(token@),
{
    let t = String::from_str(token);
    let r = if t == String::from_str("all") {
        vec![
            Category::Ultimate,
            Category::Savage,
            Category::BlueMage,
            Category::Another,
            Category::Public,
            Category::Deep,
        ]
    } else if t == String::from_str("u") {
        vec![Category::Ultimate]
    } else if t == String::from_str("s") {
        vec![Category::Savage]
    } else if t == String::from_str("bm") {
        vec![Category::BlueMage]
    } else if t == String::from_str("ad") {
        vec![Category::Another]
    } else if t == String::from_str("pd") {
        vec![Category::Public]
    } else if t == String::from_str("dd") {
        vec![Category::Deep]
    } else {
        Vec::new()
    };
    assert(r@ =~= token_categories(token@));
    r
}

/// The tracked achievements of each category. Built once and only read.
/// Titles are expected to be unique across categories; a title listed twice
/// is reported once per listing.
pub struct Catalog {
    pub ultimate: Vec<AchievementDefinition>,
    pub savage: Vec<AchievementDefinition>,
    pub blue_mage: Vec<AchievementDefinition>,
    pub another: Vec<AchievementDefinition>,
    pub public: Vec<AchievementDefinition>,
    pub deep: Vec<AchievementDefinition>,
}

impl Catalog {
    /// The definitions of category `c`, as values.
    pub open spec fn category_model(&self, c: Category) -> Seq<DefinitionModel> {
        let v = match c {
            Category::Ultimate => self.ultimate@,
            Category::Savage => self.savage@,
            Category::BlueMage => self.blue_mage@,
            Category::Another => self.another@,
            Category::Public => self.public@,
            Category::Deep => self.deep@,
        };
        v.map_values(|d: AchievementDefinition| d@)
    }

    /// The definitions of the categories `cats`, one category after another.
    pub open spec fn selection_model(&self, cats: Seq<Category>) -> Seq<DefinitionModel>
        decreases cats.len(),
    {
        if cats.len() == 0 {
            Seq::empty()
        } else {
            self.selection_model(cats.drop_last()) + self.category_model(cats.last())
        }
    }

    /// The definitions of category `c`.
    pub fn category(&self, c: Category) -> (r: &Vec<AchievementDefinition>)
        ensures
            r@.map_values(|d: AchievementDefinition| d@) == self.category_model(c),
    {
        match c {
            Category::Ultimate => &self.ultimate,
            Category::Savage => &self.savage,
            Category::BlueMage => &self.blue_mage,
            Category::Another => &self.another,
            Category::Public => &self.public,
            Category::Deep => &self.deep,
        }
    }

    /// The definitions that `token` selects, category after category, each
    /// in the catalog's order.
    pub fn resolve<'a>(&'a self, token: &str) -> (r: Vec<&'a AchievementDefinition>)
        ensures
            definitions_model(r@) == self.selection_model(token_categories(token@)),
    {
        let cats = categories_for(token);
        let mut out: Vec<&'a AchievementDefinition> = Vec::new();
        let mut k: usize = 0;
        while k < cats.len()
            invariant
                k <= cats.len(),
                definitions_model(out@) == self.selection_model(cats@.take(k as int)),
            decreases cats.len() - k,
        {
            let list = self.category(cats[k]);
            let ghost before = definitions_model(out@);
            let mut j: usize = 0;
            while j < list.len()
                invariant
                    j <= list.len(),
                    definitions_model(out@) == before + list@.take(j as int).map_values(
                        |d: AchievementDefinition| d@,
                    ),
                decreases list.len() - j,
            {
                let ghost prev = out@;
                out.push(&list[j]);
                assert(definitions_model(out@) =~= definitions_model(prev).push(list@[j as int]@));
                assert(list@.take(j as int + 1).map_values(|d: AchievementDefinition| d@)
                    =~= list@.take(j as int).map_values(|d: AchievementDefinition| d@).push(
                    list@[j as int]@,
                ));
                assert(definitions_model(out@) =~= before + list@.take(j as int + 1).map_values(
                    |d: AchievementDefinition| d@,
                ));
                j = j + 1;
            }
            assert(list@.take(list.len() as int) =~= list@);
            assert(cats@.take(k as int + 1).drop_last() =~= cats@.take(k as int));
            k = k + 1;
        }
        assert(cats@.take(cats.len() as int) =~= cats@);
        out
    }
}

} // verus!
