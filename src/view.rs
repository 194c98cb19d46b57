//! The catalog of things to check: entries with their precomputed HTML, looked
//! up by a stable index or picked at random.
use vstd::prelude::*;
use crate::render::{html_of, render};

verus! {

/// What a catalog entry holds: its markdown source and the HTML rendered from it.
pub struct ThingView {
    pub markdown: Seq<char>,
    pub html: Seq<char>,
}

/// The entry that a markdown text becomes.
pub open spec fn thing_of(markdown: Seq<char>) -> ThingView {
    ThingView { markdown, html: html_of(markdown) }
}

/// The entries of a catalog built from a sequence of markdown texts, in order.
pub open spec fn catalog_of(raw: Seq<Seq<char>>) -> Seq<ThingView> {
    raw.map_values(|m: Seq<char>| thing_of(m))
}

/// One suggestion: its markdown source and the HTML rendered from it once.
#[derive(Clone, Debug)]
pub struct Thing {
    markdown: String,
    html: String,
}

impl View for Thing {
    type V = ThingView;

    closed spec fn view(&self) -> ThingView {
        ThingView { markdown: self.markdown@, html: self.html@ }
    }
}

impl Thing {
    /// The markdown source, as written in the catalog.
    pub fn markdown(&self) -> (r: &str)
        ensures
            r@ == self@.markdown,
    {
        self.markdown.as_str()
    }

    /// The HTML rendered from the markdown source.
    pub fn html(&self) -> (r: &str)
        ensures
            r@ == self@.html,
    {
        self.html.as_str()
    }
}

impl From<String> for Thing {
    /// Renders `markdown` and keeps both texts.
    fn from(markdown: String) -> (t: Thing)
        ensures
            t@ == thing_of(markdown@),
    {
        let html = render(markdown.as_str());
        Thing { markdown, html }
    }
}

impl vstd::std_specs::convert::FromSpecImpl<String> for Thing {
    /// The HTML half of an entry is known only through its view, so `from` is
    /// specified by its own `ensures` rather than by a spec value.
    open spec fn obeys_from_spec() -> bool {
        false
    }

    /// Some entry whose view is what `from` gives; never consulted, as
    /// `obeys_from_spec` is false.
    closed spec fn from_spec(v: String) -> Thing {
        choose|t: Thing| t@ == thing_of(v@)
    }
}


/// Why a selection found no entry.
#[derive(Clone, Copy, Debug, PartialEq, Eq, Structural)]
pub enum SelectError {
    /// An explicit index was asked for and the catalog has no entry there.
    NotFound,
    /// No index was asked for and the catalog has no entries to pick from.
    EmptyCatalog,
}

/// The index that a selection yields on a catalog of `len` entries: the requested
/// index when one is given and in range, and `drawn` reduced modulo `len` when
/// none is given. A draw uniform over `0..len` is kept as it is.
pub open spec fn selection(len: nat, requested: Option<usize>, drawn: usize) -> Result<nat, SelectError> {
    match requested {
        Some(i) => if (i as nat) < len {
            Ok(i as nat)
        } else {
            Err(SelectError::NotFound)
        },
        None => if len == 0 {
            Err(SelectError::EmptyCatalog)
        } else {
            Ok(drawn as nat % len)
        },
    }
}

/// An immutable catalog: each entry stands with its index, which is its position
/// in the sequence that the catalog was built from.
#[derive(Clone, Debug)]
pub struct Things(Vec<(usize, Thing)>);

impl View for Things {
    type V = Seq<ThingView>;

    closed spec fn view(&self) -> Seq<ThingView> {
        self.0@.map_values(|e: (usize, Thing)| e.1@)
    }
}

impl Things {
    /// Each entry's index is its position.
    pub closed spec fn wf(&self) -> bool {
        forall|i: int| 0 <= i < self.0@.len() ==> #[trigger] self.0@[i].0 == i
    }

    /// Builds a catalog from markdown texts in order, rendering each once.
    pub fn build(raw: Vec<String>) -> (r: Things)
        ensures
            r.wf(),
            r@ == catalog_of(raw@.map_values(|s: String| s@)),
    {
        let ghost raw_views = raw@.map_values(|s: String| s@);
        let mut entries: Vec<(usize, Thing)> = Vec::new();
        let mut rest = raw;
        let total = rest.len();
        let ghost n = rest@.len();
        let mut i: usize = 0;
        // Take the texts from the back, then reverse, so that each is moved once.
        let mut taken: Vec<Thing> = Vec::new();
        while rest.len() > 0
            invariant
                taken@.len() + rest@.len() == n,
                rest@ == raw@.take(rest@.len() as int),
                forall|k: int| 0 <= k < taken@.len() ==> #[trigger] taken@[k]@ == thing_of(raw_views[n - 1 - k]),
                raw_views == raw@.map_values(|s: String| s@),
                n == raw@.len(),
            decreases rest@.len(),
        {
            let m = rest.pop().unwrap();
            proof {
                assert(m == raw@[rest@.len() as int]);
            }
            taken.push(Thing::from(m));
            proof {
                assert(rest@ =~= raw@.take(rest@.len() as int));
            }
        }
        while taken.len() > 0
            invariant
                entries@.len() + taken@.len() == n,
                i == entries@.len(),
                n == total,
                forall|k: int| 0 <= k < taken@.len() ==> #[trigger] taken@[k]@ == thing_of(raw_views[n - 1 - k]),
                forall|k: int| 0 <= k < entries@.len() ==> (#[trigger] entries@[k]).0 == k && entries@[k].1@ == thing_of(raw_views[k]),
                raw_views == raw@.map_values(|s: String| s@),
                n == raw@.len(),
            decreases taken@.len(),
        {
            let t = taken.pop().unwrap();
            entries.push((i, t));
            i = i + 1;
        }
        let r = Things(entries);
        assert(r@ =~= catalog_of(raw_views));
        r
    }

    /// The number of entries.
    pub fn len(&self) -> (r: usize)
        ensures
            r == self@.len(),
    {
        self.0.len()
    }

    /// Whether the catalog has no entries.
    pub fn is_empty(&self) -> (r: bool)
        ensures
            r == (self@.len() == 0),
    {
        self.0.len() == 0
    }

    /// The entry at `index` with its index, or `None` when `index` is out of range.
    pub fn get(&self, index: usize) -> (r: Option<&(usize, Thing)>)
        requires
            self.wf(),
        ensures
            (index as nat) < self@.len() <==> r is Some,
            r matches Some(e) ==> e.0 == index && e.1@ == self@[index as int],
    {
        if index < self.0.len() {
            Some(&self.0[index])
        } else {
            None
        }
    }
}

impl Things {
    /// The entry that `selection` picks, with its index.
    pub fn select_drawn(&self, requested: Option<usize>, drawn: usize) -> (r: Result<&(usize, Thing), SelectError>)
        requires
            self.wf(),
        ensures
            match selection(self@.len(), requested, drawn) {
                Ok(i) => r matches Ok(e) && e.0 == i && e.1@ == self@[i as int],
                Err(err) => r == Err::<&(usize, Thing), SelectError>(err),
            },
    {
        let len = self.0.len();
        let index = match requested {
            Some(i) => i,
            None => {
                if len == 0 {
                    return Err(SelectError::EmptyCatalog);
                }
                drawn % len
            },
        };
        match self.get(index) {
            Some(e) => Ok(e),
            None => Err(SelectError::NotFound),
        }
    }

    /// The entry at `requested` when given, else an entry drawn uniformly at random.
    /// An invalid explicit index is never replaced by a random one.
    pub fn select(&self, requested: Option<usize>) -> (r: Result<&(usize, Thing), SelectError>)
        requires
            self.wf(),
        ensures
            requested matches Some(i) ==> match selection(self@.len(), requested, 0) {
                Ok(k) => r matches Ok(e) && e.0 == k && e.1@ == self@[k as int],
                Err(err) => r == Err::<&(usize, Thing), SelectError>(err),
            },
            requested is None && self@.len() == 0 ==> r == Err::<&(usize, Thing), SelectError>(SelectError::EmptyCatalog),
            requested is None && self@.len() > 0 ==> (r matches Ok(e) && (e.0 as nat) < self@.len() && e.1@ == self@[e.0 as int]),
    {
        let len = self.0.len();
        let drawn: usize = if requested.is_none() && len > 0 {
            draw_index(len)
        } else {
            0
        };
        self.select_drawn(requested, drawn)
    }

    /// The markdown of the entry that `selection` picks with no index asked for.
    pub fn chat_text_drawn(&self, drawn: usize) -> (r: Result<&str, SelectError>)
        requires
            self.wf(),
        ensures
            match selection(self@.len(), None, drawn) {
                Ok(i) => r matches Ok(m) && m@ == self@[i as int].markdown,
                Err(err) => r == Err::<&str, SelectError>(err),
            },
    {
        match self.select_drawn(None, drawn) {
            Ok(e) => Ok(e.1.markdown()),
            Err(err) => Err(err),
        }
    }

    /// The raw markdown, not the HTML, of an entry drawn uniformly at random, for
    /// chat clients that render markdown themselves.
    pub fn chat_text(&self) -> (r: Result<&str, SelectError>)
        requires
            self.wf(),
        ensures
            self@.len() == 0 ==> r == Err::<&str, SelectError>(SelectError::EmptyCatalog),
            self@.len() > 0 ==> (r matches Ok(m) && exists|i: int| 0 <= i < self@.len() && m@ == #[trigger] self@[i].markdown),
    {
        let len = self.0.len();
        let drawn: usize = if len > 0 {
            draw_index(len)
        } else {
            0
        };
        self.chat_text_drawn(drawn)
    }
}

/// Relies on rand::thread_rng and rand::Rng::gen_range: a value drawn uniformly
/// from `0..len` (gen_range panics on an empty range).
#[verifier::external_body]
fn draw_index(len: usize) -> (r: usize)
    requires
        len > 0,
    ensures
        r < len,
{
    rand::Rng::gen_range(&mut rand::thread_rng(), 0..len)
}

/// The list of strings that serde_yaml reads from a YAML text, or `None` when the
/// text is not a YAML sequence of strings.
pub uninterp spec fn yaml_strings_of(src: Seq<char>) -> Option<Seq<Seq<char>>>;

/// Relies on serde_yaml::from_str into a `Vec<String>`: the outcome depends on the
/// text alone.
#[verifier::external_body]
fn parse_yaml_strings(src: &str) -> (r: Result<Vec<String>, serde_yaml::Error>)
    ensures
        r is Ok <==> yaml_strings_of(src@) is Some,
        r matches Ok(v) ==> v@.map_values(|s: String| s@) == yaml_strings_of(src@)->0,
{
    serde_yaml::from_str::<Vec<String>>(src)
}

/// Errors that can arise initializing the catalog.
#[derive(Debug)]
pub enum LoadError {
    /// The catalog source is not a YAML sequence of strings.
    DeserializeError(serde_yaml::Error),
}

/// Builds the catalog from its YAML source: a sequence of markdown strings, whose
/// order gives the indices.
pub fn load_things(src: &str) -> (r: Result<Things, LoadError>)
    ensures
        match yaml_strings_of(src@) {
            Some(raw) => r matches Ok(t) && t.wf() && t@ == catalog_of(raw),
            None => r is Err,
        },
{
    match parse_yaml_strings(src) {
        Ok(raw) => Ok(Things::build(raw)),
        Err(e) => Err(LoadError::DeserializeError(e)),
    }
}

/// Appending entries to the source of a catalog changes no existing entry: for
/// every index below the old length, the extended catalog holds the same entry and
/// an explicit selection of that index yields it, as it did before.
pub proof fn lemma_index_stability(s: Seq<Seq<char>>, more: Seq<Seq<char>>, i: usize, drawn: usize)
    requires
        (i as nat) < s.len(),
    ensures
        catalog_of(s + more).len() == s.len() + more.len(),
        catalog_of(s + more)[i as int] == catalog_of(s)[i as int],
        selection(catalog_of(s + more).len(), Some(i), drawn) == selection(catalog_of(s).len(), Some(i), drawn),
        selection(catalog_of(s).len(), Some(i), drawn) == Ok::<nat, SelectError>(i as nat),
{
    assert((s + more)[i as int] == s[i as int]);
}

/// An explicit index is never replaced by a random one: the draw plays no part in
/// an explicit selection, and an index out of range is "not found".
pub proof fn lemma_explicit_index_never_random(len: nat, i: usize, drawn: usize, other: usize)
    ensures
        selection(len, Some(i), drawn) == selection(len, Some(i), other),
        (i as nat) >= len ==> selection(len, Some(i), drawn) == Err::<nat, SelectError>(SelectError::NotFound),
{
}

} // verus!
