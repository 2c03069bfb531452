//! Shared scanning of Flex statement section rows.
//!
//! Every Flex section (`OpenPositions`, `Trades`, ...) is a flat list of elements whose
//! attributes are present only when the query is configured to include them. This module
//! turns "every `<Tag ...>` in the document" into rows; each section decides the mapping.

use vstd::prelude::*;
use vstd::string::StringExecFns;

use super::parse::FlexError;
use super::xml::{
    attribute_items, attribute_key, attribute_value, next_attribute, next_token, normalized_attribute_value,
    open_scanner, tag_attributes, tag_name, well_ended, xml_tokens, AttrItem, AttrToken, Token, XmlToken,
};

verus! {

/// The map that a list of key/value pairs makes when they are inserted in
/// order: a later pair with the same key replaces an earlier one.
pub open spec fn pairs_map(s: Seq<(Seq<char>, Seq<char>)>) -> Map<Seq<char>, Seq<char>>
    decreases s.len(),
{
    if s.len() == 0 {
        Map::empty()
    } else {
        pairs_map(s.drop_last()).insert(s.last().0, s.last().1)
    }
}

/// Pairs at or after `i` with another key do not change what `k` maps to.
proof fn lemma_pairs_map_suffix(s: Seq<(Seq<char>, Seq<char>)>, i: int, k: Seq<char>)
    requires
        0 <= i <= s.len(),
        forall|j: int| i <= j < s.len() ==> s[j].0 != k,
    ensures
        pairs_map(s).contains_key(k) == pairs_map(s.take(i)).contains_key(k),
        pairs_map(s).contains_key(k) ==> pairs_map(s)[k] == pairs_map(s.take(i))[k],
    decreases s.len() - i,
{
    if i < s.len() {
        assert(s.drop_last().take(i) =~= s.take(i));
        lemma_pairs_map_suffix(s.drop_last(), i, k);
    } else {
        assert(s.take(i) =~= s);
    }
}

/// The attributes of one Flex row element, as a map from name to value (its
/// view): a later attribute of the same name replaces the earlier one.
///
/// The pairs are held in a `Vec` in the order the element gives them, not in a
/// `HashMap<String, String>`: vstd specifies `HashMap`'s `insert` and `get`
/// only for key types that obey its key model (`obeys_key_model`), which it
/// grants to integer and `bool` keys and not to `String`, so a `HashMap` here
/// would leave every lookup unproved.
pub struct Attrs {
    pairs: Vec<(String, String)>,
}

impl Attrs {
    pub closed spec fn pairs_view(&self) -> Seq<(Seq<char>, Seq<char>)> {
        self.pairs@.map_values(|p: (String, String)| (p.0@, p.1@))
    }
}

impl View for Attrs {
    type V = Map<Seq<char>, Seq<char>>;

    closed spec fn view(&self) -> Map<Seq<char>, Seq<char>> {
        pairs_map(self.pairs_view())
    }
}

/// Field value `v` is attribute `key` of a row with attribute map `m`,
/// verbatim: the attribute's text when the row has it, `None` when it has not.
pub open spec fn is_attribute(v: Option<Seq<char>>, m: Map<Seq<char>, Seq<char>>, key: Seq<char>) -> bool {
    &&& m.contains_key(key) ==> v == Some(m[key])
    &&& !m.contains_key(key) ==> v is None
}

/// Field text `v` is attribute `key` of a row with attribute map `m`, the empty
/// text when the row does not have it.
pub open spec fn is_attribute_text(v: Seq<char>, m: Map<Seq<char>, Seq<char>>, key: Seq<char>) -> bool {
    &&& m.contains_key(key) ==> v == m[key]
    &&& !m.contains_key(key) ==> v.len() == 0
}

/// The value that `m` holds for `key`, if it holds one.
pub open spec fn lookup(m: Map<Seq<char>, Seq<char>>, key: Seq<char>) -> Option<Seq<char>> {
    if m.contains_key(key) {
        Some(m[key])
    } else {
        None
    }
}

impl Attrs {
    /// No attributes.
    pub(crate) fn new() -> (a: Attrs)
        ensures
            a@ == Map::<Seq<char>, Seq<char>>::empty(),
    {
        let a = Attrs { pairs: Vec::new() };
        assert(a.pairs_view() =~= Seq::<(Seq<char>, Seq<char>)>::empty());
        a
    }

    /// Sets `key` to `value`, replacing any earlier value.
    pub(crate) fn insert(&mut self, key: String, value: String)
        ensures
            final(self)@ == old(self)@.insert(key@, value@),
    {
        let ghost k = key@;
        let ghost v = value@;
        self.pairs.push((key, value));
        assert(self.pairs_view() =~= old(self).pairs_view().push((k, v)));
        assert(self.pairs_view().drop_last() =~= old(self).pairs_view());
    }

    /// The attribute's value, if the query emitted it.
    pub fn text(&self, key: &str) -> (r: Option<String>)
        ensures
            r.deep_view() == lookup(self@, key@),
    {
        let wanted = String::from_str(key);
        let ghost s = self.pairs_view();
        let mut i = self.pairs.len();
        while i > 0
            invariant
                i <= self.pairs.len(),
                s == self.pairs_view(),
                wanted@ == key@,
                forall|j: int| i <= j < s.len() ==> s[j].0 != key@,
            decreases i,
        {
            if self.pairs[i - 1].0 == wanted {
                proof {
                    lemma_pairs_map_suffix(s, i as int, key@);
                    assert(s.take(i as int).drop_last() =~= s.take(i - 1));
                }
                return Some(self.pairs[i - 1].1.clone());
            }
            i -= 1;
        }
        proof {
            lemma_pairs_map_suffix(s, 0, key@);
        }
        None
    }
}

/// Reading an attribute back after setting it gives the value set, and setting
/// one attribute leaves every other attribute as it was.
pub proof fn lemma_attrs_read_after_write(m: Map<Seq<char>, Seq<char>>, key: Seq<char>, value: Seq<char>, other: Seq<char>)
    ensures
        lookup(m.insert(key, value), key) == Some(value),
        other != key ==> lookup(m.insert(key, value), other) == lookup(m, other),
{
}

/// The attribute map that an element's attribute items make when inserted
/// into `acc` in order, or the error message of the first item that fails:
/// a malformed attribute, or a value that does not normalise.
pub open spec fn attrs_from(items: Seq<AttrItem>, tag: Seq<char>, acc: Map<Seq<char>, Seq<char>>) -> Result<Map<Seq<char>, Seq<char>>, Seq<char>>
    decreases items.len(),
{
    if items.len() == 0 {
        Ok(acc)
    } else {
        match items[0] {
            AttrItem::Malformed { message } => Err(tag + " attribute: "@ + message),
            AttrItem::Pair { key, raw } => match normalized_attribute_value(raw) {
                Err(m) => Err(tag + " attribute value: "@ + m),
                Ok(v) => attrs_from(items.drop_first(), tag, acc.insert(key, v)),
            },
        }
    }
}

/// The rows (attribute maps) of every element named `tag` among `tokens`, in
/// document order, or the first error met before the end of the document.
pub open spec fn rows_from(tokens: Seq<XmlToken>, tag: Seq<char>) -> Result<Seq<Map<Seq<char>, Seq<char>>>, Seq<char>>
    decreases tokens.len(),
{
    if tokens.len() == 0 {
        Ok(Seq::empty())
    } else {
        match tokens[0] {
            XmlToken::Eof => Ok(Seq::empty()),
            XmlToken::Failure { message } => Err(tag + " XML: "@ + message),
            XmlToken::Element { name, rest } => if name == tag {
                match attrs_from(attribute_items(name, rest), tag, Map::empty()) {
                    Err(m) => Err(m),
                    Ok(row) => match rows_from(tokens.drop_first(), tag) {
                        Ok(more) => Ok(seq![row] + more),
                        Err(m) => Err(m),
                    },
                }
            } else {
                rows_from(tokens.drop_first(), tag)
            },
            XmlToken::Other => rows_from(tokens.drop_first(), tag),
        }
    }
}

/// The rows of every `<tag ...>` element (start or empty-element tag) in the
/// document `xml`, or the error message of a parse failure.
pub open spec fn scan_rows(xml: Seq<char>, tag: Seq<char>) -> Result<Seq<Map<Seq<char>, Seq<char>>>, Seq<char>> {
    rows_from(xml_tokens(xml), tag)
}

/// `row` is what `row_from` makes of some attributes whose map is `m`.
pub open spec fn made_from<T, F: Fn(&Attrs) -> T>(row_from: F, m: Map<Seq<char>, Seq<char>>, row: T) -> bool {
    exists|a: Attrs| a@ == m && #[trigger] row_from.ensures((&a,), row)
}

fn attrs_of(tag_token: &super::xml::Tag, tag: &str) -> (r: Result<Attrs, FlexError>)
    ensures
        match attrs_from(attribute_items(tag_token.name(), tag_token.rest()), tag@, Map::empty()) {
            Ok(m) => r is Ok && r->Ok_0@ == m,
            Err(msg) => r is Err && r->Err_0@ == super::parse::FlexErrorView::Parse(msg),
        },
{
    let ghost all = attribute_items(tag_token.name(), tag_token.rest());
    let mut scanner = tag_attributes(tag_token);
    let mut attrs = Attrs::new();
    loop
        invariant
            all == attribute_items(tag_token.name(), tag_token.rest()),
            attrs_from(all, tag@, Map::empty()) == attrs_from(scanner.pending(), tag@, attrs@),
        decreases scanner.pending().len(),
    {
        match next_attribute(&mut scanner) {
            None => {
                return Ok(attrs);
            },
            Some(AttrToken::Malformed(e)) => {
                let mut m = String::from_str(tag);
                m.append(" attribute: ");
                m.append(e.as_str());
                return Err(FlexError::Parse(m));
            },
            Some(AttrToken::Pair(a)) => {
                let key = attribute_key(&a);
                match attribute_value(&a) {
                    Err(e) => {
                        let mut m = String::from_str(tag);
                        m.append(" attribute value: ");
                        m.append(e.as_str());
                        return Err(FlexError::Parse(m));
                    },
                    Ok(value) => {
                        attrs.insert(key, value);
                    },
                }
            },
        }
    }
}

/// Every `<tag ...>` element in a Flex statement, each made into a row by `row_from`.
///
/// On success the rows stand in document order, one for each element named
/// `tag`, each made by `row_from` from attributes whose map is that element's;
/// on a parse failure the error is the one [`scan_rows`] names.
pub fn parse_rows<T, F: Fn(&Attrs) -> T>(xml: &str, tag: &str, row_from: F) -> (r: Result<Vec<T>, FlexError>)
    requires
        forall|a: &Attrs| #[trigger] row_from.requires((a,)),
    ensures
        match scan_rows(xml@, tag@) {
            Ok(maps) => r is Ok && r->Ok_0.len() == maps.len() && forall|i: int|
                0 <= i < maps.len() ==> #[trigger] made_from(row_from, maps[i], r->Ok_0[i]),
            Err(msg) => r is Err && r->Err_0@ == super::parse::FlexErrorView::Parse(msg),
        },
{
    let mut scanner = open_scanner(xml);
    let mut rows: Vec<T> = Vec::new();
    let ghost mut maps: Seq<Map<Seq<char>, Seq<char>>> = Seq::empty();
    loop
        invariant
            forall|a: &Attrs| #[trigger] row_from.requires((a,)),
            well_ended(scanner.pending()),
            rows.len() == maps.len(),
            forall|i: int| 0 <= i < maps.len() ==> #[trigger] made_from(row_from, maps[i], rows@[i]),
            scan_rows(xml@, tag@) == match rows_from(scanner.pending(), tag@) {
                Ok(more) => Ok(maps + more),
                Err(m) => Err(m),
            },
        decreases scanner.pending().len(),
    {
        let ghost before = scanner.pending();
        assert(before.len() > 0);
        let token = next_token(&mut scanner);
        assert(before.drop_first() == scanner.pending());
        match token {
            Token::Eof => {
                assert(maps + Seq::<Map<Seq<char>, Seq<char>>>::empty() =~= maps);
                return Ok(rows);
            },
            Token::Failure(e) => {
                let mut m = String::from_str(tag);
                m.append(" XML: ");
                m.append(e.as_str());
                return Err(FlexError::Parse(m));
            },
            Token::Other => {
                assert(!super::xml::is_final(before[0]));
                assert(well_ended(scanner.pending())) by {
                    assert forall|i: int| 0 <= i < scanner.pending().len() - 1 implies
                        !super::xml::is_final(#[trigger] scanner.pending()[i]) by {
                        assert(scanner.pending()[i] == before[i + 1]);
                    }
                }
            },
            Token::Element(element) => {
                assert(!super::xml::is_final(before[0]));
                assert(well_ended(scanner.pending())) by {
                    assert forall|i: int| 0 <= i < scanner.pending().len() - 1 implies
                        !super::xml::is_final(#[trigger] scanner.pending()[i]) by {
                        assert(scanner.pending()[i] == before[i + 1]);
                    }
                }
                let name = tag_name(&element);
                let name_text = String::from_str(name);
                let tag_text = String::from_str(tag);
                if name_text == tag_text {
                    let attrs = attrs_of(&element, tag)?;
                    let row = row_from(&attrs);
                    let ghost old_maps = maps;
                    let ghost old_rows = rows@;
                    rows.push(row);
                    proof {
                        maps = maps.push(attrs@);
                        assert forall|i: int| 0 <= i < maps.len() implies #[trigger] made_from(row_from, maps[i], rows@[i]) by {
                            if i < old_maps.len() {
                                assert(rows@[i] == old_rows[i]);
                                assert(maps[i] == old_maps[i]);
                            } else {
                                assert(attrs@ == maps[i] && row_from.ensures((&attrs,), rows@[i]));
                            }
                        }
                        match rows_from(scanner.pending(), tag@) {
                            Ok(more) => {
                                assert(old_maps + (seq![attrs@] + more) =~= maps + more);
                            },
                            Err(_) => {},
                        }
                    }
                }
            },
        }
    }
}

} // verus!
