//! Share links: the query that asks the retrieval endpoint for one entry by its
//! index, and the reading of that query back.
use vstd::prelude::*;
use crate::view::{selection, SelectError};
use crate::decimal::{decimal, lemma_decimal_value, parse_bounded, parse_unsigned, all_digits, unsigned_digits};

verus! {

/// The name of the query parameter that carries an entry's index.
pub open spec fn item_key() -> Seq<char> {
    seq!['i', 't', 'e', 'm']
}

/// The form-encoded query for index `i`: `item=` followed by its decimal numeral.
pub open spec fn item_query_text(i: nat) -> Seq<char> {
    item_key().push('=') + decimal(i)
}

/// Whether `q` is `item=` followed by one or more digits, the shape of every
/// query written for an index.
pub open spec fn is_item_digits_query(q: Seq<char>) -> bool {
    &&& q.len() > 5
    &&& q.take(5) == item_key().push('=')
    &&& all_digits(q.skip(5))
}

/// The pairs that serde_urlencoded reads from a form-encoded text, names and
/// values decoded, or `None` when it refuses the text.
pub uninterp spec fn form_pairs_of(q: Seq<char>) -> Option<Seq<(Seq<char>, Seq<char>)>>;

/// What a derived deserializer reads into the `item` field from decoded pairs:
/// absent when no pair is named `item`, the parsed value of the one such pair,
/// and an error (`None`) when there are several or the value is no `usize`.
pub open spec fn item_of_pairs(pairs: Seq<(Seq<char>, Seq<char>)>) -> Option<Option<usize>> {
    let named = pairs.filter(|p: (Seq<char>, Seq<char>)| p.0 == item_key());
    if named.len() == 0 {
        Some(None)
    } else if named.len() == 1 {
        match parse_unsigned(named[0].1, usize::MAX as nat) {
            Some(v) => Some(Some(v as usize)),
            None => None,
        }
    } else {
        None
    }
}

/// Why a share link could not be produced.
#[derive(Debug)]
pub enum UrlError {
    /// The routing context could not resolve the retrieval endpoint.
    UrlGenerationError,
    /// The query could not be form-encoded.
    SerializationError(serde_urlencoded::ser::Error),
}

/// Why a query could not be read.
#[derive(Clone, Copy, Debug, PartialEq, Eq, Structural)]
pub enum QueryError {
    /// The query is not form-encoded text.
    Undecodable,
    /// `item` is given more than once, or its value is no unsigned integer.
    InvalidItem,
}

/// The query of the retrieval endpoint: an optional entry index.
#[derive(Clone, Copy, Debug, PartialEq, Eq, Structural)]
pub struct ItemQuery {
    pub item: Option<usize>,
}

impl Default for ItemQuery {
    fn default() -> (r: ItemQuery)
        ensures
            r.item is None,
    {
        ItemQuery { item: None }
    }
}

impl From<&usize> for ItemQuery {
    fn from(idx: &usize) -> (r: ItemQuery)
        ensures
            r.item == Some(*idx),
    {
        ItemQuery { item: Some(*idx) }
    }
}

impl vstd::std_specs::convert::FromSpecImpl<&usize> for ItemQuery {
    open spec fn obeys_from_spec() -> bool {
        true
    }

    open spec fn from_spec(v: &usize) -> ItemQuery {
        ItemQuery { item: Some(*v) }
    }
}

/// An ASCII letter or digit: a character that form encoding leaves as it is.
pub open spec fn is_plain_char(c: char) -> bool {
    ('a' <= c && c <= 'z') || ('A' <= c && c <= 'Z') || ('0' <= c && c <= '9')
}

/// Relies on serde_urlencoded::to_string of the single pair `(key, value)`:
/// integers are written with itoa, and ASCII letters and digits are not escaped,
/// so the text is the key, `=` and the decimal numeral; serializing a pair of a
/// string and an integer does not fail.
#[verifier::external_body]
fn encode_pair(key: &str, value: usize) -> (r: Result<String, serde_urlencoded::ser::Error>)
    requires
        forall|k: int| 0 <= k < key@.len() ==> #[trigger] is_plain_char(key@[k]),
    ensures
        r is Ok,
        r->Ok_0@ == key@.push('=') + decimal(value as nat),
{
    serde_urlencoded::to_string([(key, value)])
}

/// Relies on serde_urlencoded::from_str into a `Vec<(String, String)>`: the pairs
/// depend on the text alone; a text `item=` followed by digits holds no `&`, `+`
/// or `%`, so it decodes to that one pair unchanged.
#[verifier::external_body]
fn decode_pairs(q: &str) -> (r: Result<Vec<(String, String)>, serde::de::value::Error>)
    ensures
        r is Ok <==> form_pairs_of(q@) is Some,
        r matches Ok(v) ==> v@.map_values(|p: (String, String)| (p.0@, p.1@)) == form_pairs_of(q@)->0,
        is_item_digits_query(q@) ==> r is Ok,
        is_item_digits_query(q@) ==> r->Ok_0@.len() == 1,
        is_item_digits_query(q@) ==> r->Ok_0@[0].0@ == item_key(),
        is_item_digits_query(q@) ==> r->Ok_0@[0].1@ == q@.skip(5),
{
    serde_urlencoded::from_str::<Vec<(String, String)>>(q)
}

fn is_item_key(s: &str) -> (r: bool)
    ensures
        r == (s@ == item_key()),
{
    let n = s.unicode_len();
    if n != 4 {
        return false;
    }
    let r = s.get_char(0) == 'i' && s.get_char(1) == 't' && s.get_char(2) == 'e' && s.get_char(3) == 'm';
    assert(r ==> s@ =~= item_key());
    r
}

impl ItemQuery {
    /// The form-encoded query: `item=<index>`, or the empty text when no index is set.
    pub fn to_query(&self) -> (r: Result<String, UrlError>)
        ensures
            match self.item {
                Some(i) => r matches Ok(s) && s@ == item_query_text(i as nat),
                None => r matches Ok(s) && s@.len() == 0,
            },
    {
        match self.item {
            Some(i) => {
                proof {
                    reveal_strlit("item");
                }
                match encode_pair("item", i) {
                    Ok(s) => Ok(s),
                    Err(e) => Err(UrlError::SerializationError(e)),
                }
            },
            None => Ok(String::new()),
        }
    }

    /// Reads the query from decoded pairs as a derived deserializer does.
    pub fn from_pairs(pairs: &Vec<(String, String)>) -> (r: Result<ItemQuery, QueryError>)
        ensures
            match item_of_pairs(pairs@.map_values(|p: (String, String)| (p.0@, p.1@))) {
                Some(item) => r matches Ok(q) && item == q.item,
                None => r == Err::<ItemQuery, QueryError>(QueryError::InvalidItem),
            },
    {
        let ghost views = pairs@.map_values(|p: (String, String)| (p.0@, p.1@));
        let ghost pred = |p: (Seq<char>, Seq<char>)| p.0 == item_key();
        let mut found: Option<usize> = None;
        let mut i: usize = 0;
        while i < pairs.len()
            invariant
                i <= pairs@.len(),
                views == pairs@.map_values(|p: (String, String)| (p.0@, p.1@)),
                pred == (|p: (Seq<char>, Seq<char>)| p.0 == item_key()),
                match found {
                    None => views.take(i as int).filter(pred).len() == 0,
                    Some(k) => k < i && views.take(i as int).filter(pred) == seq![views[k as int]],
                },
            decreases pairs@.len() - i,
        {
            proof {
                assert(views.take(i as int + 1).drop_last() =~= views.take(i as int));
                broadcast use vstd::seq_lib::group_filter_ensures;
                assert(views.take(i as int + 1).last() == views[i as int]);
                reveal(Seq::filter);
            }
            if is_item_key(pairs[i].0.as_str()) {
                if found.is_some() {
                    assert(views.take(i as int + 1).filter(pred).len() == 2);
                    proof {
                        let k = i as int + 1;
                        assert(views =~= views.take(k) + views.skip(k));
                        Seq::filter_distributes_over_add(views.take(k), views.skip(k), pred);
                    }
                    return Err(QueryError::InvalidItem);
                }
                found = Some(i);
            }
            i = i + 1;
        }
        assert(views.take(i as int) =~= views);
        match found {
            None => Ok(ItemQuery { item: None }),
            Some(k) => match parse_bounded(pairs[k].1.as_str(), usize::MAX) {
                Some(v) => Ok(ItemQuery { item: Some(v) }),
                None => Err(QueryError::InvalidItem),
            },
        }
    }
}

impl ItemQuery {
    /// Reads the query of the retrieval endpoint from its form-encoded text.
    pub fn parse(query: &str) -> (r: Result<ItemQuery, QueryError>)
        ensures
            match form_pairs_of(query@) {
                None => r == Err::<ItemQuery, QueryError>(QueryError::Undecodable),
                Some(pairs) => match item_of_pairs(pairs) {
                    Some(item) => r matches Ok(q) && item == q.item,
                    None => r == Err::<ItemQuery, QueryError>(QueryError::InvalidItem),
                },
            },
            is_item_digits_query(query@) ==> match parse_unsigned(query@.skip(5), usize::MAX as nat) {
                Some(v) => r == Ok::<ItemQuery, QueryError>(ItemQuery { item: Some(v as usize) }),
                None => r == Err::<ItemQuery, QueryError>(QueryError::InvalidItem),
            },
    {
        match decode_pairs(query) {
            Ok(pairs) => {
                proof {
                    if is_item_digits_query(query@) {
                        let views = pairs@.map_values(|p: (String, String)| (p.0@, p.1@));
                        let pred = |p: (Seq<char>, Seq<char>)| p.0 == item_key();
                        assert(views =~= seq![(item_key(), query@.skip(5))]);
                        reveal_with_fuel(Seq::filter, 2);
                        assert(views.drop_last() =~= Seq::<(Seq<char>, Seq<char>)>::empty());
                        assert(views.filter(pred) =~= seq![(item_key(), query@.skip(5))]);
                    }
                }
                ItemQuery::from_pairs(&pairs)
            },
            Err(_) => Err(QueryError::Undecodable),
        }
    }
}

/// Share-link round trip: the query written for index `i` has the shape of an
/// index query, its value reads back as `i`, and an explicit selection of `i` on
/// a catalog that holds `i` yields entry `i`.
pub proof fn lemma_share_link_round_trip(len: nat, i: usize, drawn: usize)
    requires
        (i as nat) < len,
    ensures
        is_item_digits_query(item_query_text(i as nat)),
        parse_unsigned(item_query_text(i as nat).skip(5), usize::MAX as nat) == Some(i as nat),
        selection(len, Some(i), drawn) == Ok::<nat, SelectError>(i as nat),
{
    let q = item_query_text(i as nat);
    lemma_decimal_value(i as nat);
    assert(q.take(5) =~= item_key().push('='));
    assert(q.skip(5) =~= decimal(i as nat));
    let d = q.skip(5);
    assert(crate::decimal::is_digit(d[0]));
    assert(unsigned_digits(d) == d);
}

} // verus!
