//! INI files as the `ini` crate holds them.

use vstd::prelude::*;

use crate::types::opt_view;

verus! {

/// The `ini` crate's representation of an INI file.
#[verifier::external_type_specification]
#[verifier::external_body]
pub struct ExIni(ini::Ini);

/// The named sections of a file, each with its keys and values in order. Of
/// several sections with one name it is the first.
pub uninterp spec fn ini_sections(conf: ini::Ini) -> Map<
    Seq<char>,
    Seq<(Seq<char>, Seq<char>)>,
>;

/// The first value of a key.
pub open spec fn first_value(pairs: Seq<(Seq<char>, Seq<char>)>, key: Seq<char>) -> Option<
    Seq<char>,
>
    decreases pairs.len(),
{
    if pairs.len() == 0 {
        None
    } else if pairs[0].0 == key {
        Some(pairs[0].1)
    } else {
        first_value(pairs.subrange(1, pairs.len() as int), key)
    }
}

/// The value of a key in a section.
pub open spec fn lookup(
    sections: Map<Seq<char>, Seq<(Seq<char>, Seq<char>)>>,
    section: Seq<char>,
    key: Seq<char>,
) -> Option<Seq<char>> {
    if sections.dom().contains(section) {
        first_value(sections[section], key)
    } else {
        None
    }
}

/// The pairs with another key.
pub open spec fn without_key(pairs: Seq<(Seq<char>, Seq<char>)>, key: Seq<char>) -> Seq<
    (Seq<char>, Seq<char>),
>
    decreases pairs.len(),
{
    if pairs.len() == 0 {
        pairs
    } else if pairs.last().0 == key {
        without_key(pairs.drop_last(), key)
    } else {
        without_key(pairs.drop_last(), key).push(pairs.last())
    }
}

/// The pairs of a section; none where there is no such section.
pub open spec fn section_pairs(
    sections: Map<Seq<char>, Seq<(Seq<char>, Seq<char>)>>,
    section: Seq<char>,
) -> Seq<(Seq<char>, Seq<char>)> {
    if sections.dom().contains(section) {
        sections[section]
    } else {
        Seq::empty()
    }
}

/// The sections with a value set: all values that the key had are taken out, and
/// the new one stands last in the section.
pub open spec fn with_value(
    sections: Map<Seq<char>, Seq<(Seq<char>, Seq<char>)>>,
    section: Seq<char>,
    key: Seq<char>,
    value: Seq<char>,
) -> Map<Seq<char>, Seq<(Seq<char>, Seq<char>)>> {
    sections.insert(
        section,
        without_key(section_pairs(sections, section), key).push((key, value)),
    )
}

/// No sections.
pub open spec fn no_sections() -> Map<Seq<char>, Seq<(Seq<char>, Seq<char>)>> {
    Map::empty()
}

/// `ini::Ini::new` makes a file without named sections.
#[verifier::external_body]
pub(crate) fn ini_new() -> (r: ini::Ini)
    ensures
        ini_sections(r) == no_sections(),
{
    ini::Ini::new()
}

/// The named sections that `ini::Ini::load_from_str` reads of a text; none where the
/// text is not an INI file.
pub uninterp spec fn ini_text(text: Seq<char>) -> Option<
    Map<Seq<char>, Seq<(Seq<char>, Seq<char>)>>,
>;

/// The named sections of a file, if there is one.
pub open spec fn opt_sections(conf: Option<ini::Ini>) -> Option<
    Map<Seq<char>, Seq<(Seq<char>, Seq<char>)>>,
> {
    match conf {
        Some(c) => Some(ini_sections(c)),
        None => None,
    }
}

/// `ini::Ini::load_from_str` reads a text as an INI file, and fails where it is not
/// one. The result depends on the text alone.
#[verifier::external_body]
pub(crate) fn ini_parse(text: &str) -> (r: Option<ini::Ini>)
    ensures
        opt_sections(r) == ini_text(text@),
{
    ini::Ini::load_from_str(text).ok()
}

/// `ini::Ini::get_from` finds the first value of a key in the first section with
/// a name.
#[verifier::external_body]
pub(crate) fn ini_get(conf: &ini::Ini, section: &str, key: &str) -> (r: Option<String>)
    ensures
        opt_view(r) == lookup(ini_sections(*conf), section@, key@),
{
    conf.get_from(Some(section), key).map(|v| v.to_string())
}

/// `ini::Ini::set_to` sets the value of a key in the first section with a name,
/// which it makes where there is none. The values that the key had are taken
/// out, and the new one stands last.
#[verifier::external_body]
pub(crate) fn ini_set(conf: &mut ini::Ini, section: &str, key: &str, value: &str)
    ensures
        ini_sections(*final(conf)) == with_value(
            ini_sections(*old(conf)),
            section@,
            key@,
            value@,
        ),
{
    conf.set_to(Some(section), key.to_string(), value.to_string())
}

/// `ini::Ini::section` gives the first section with a name, and
/// `ini::Properties::iter` walks its keys and values in order.
#[verifier::external_body]
pub(crate) fn ini_pairs(conf: &ini::Ini, section: &str) -> (r: Vec<(String, String)>)
    ensures
        crate::types::pair_views(r@) == section_pairs(ini_sections(*conf), section@),
{
    let properties = conf.section(Some(section)).cloned().unwrap_or_default();
    properties.iter().map(|(k, v)| (k.to_string(), v.to_string())).collect()
}

/// Taking a key out leaves the values of the others.
proof fn lemma_without_key(pairs: Seq<(Seq<char>, Seq<char>)>, key: Seq<char>, other: Seq<char>)
    ensures
        first_value(without_key(pairs, key), other) == if other == key {
            None
        } else {
            first_value(pairs, other)
        },
    decreases pairs.len(),
{
    if pairs.len() > 0 {
        let before = pairs.drop_last();
        lemma_without_key(before, key, other);
        lemma_first_value_push(before, pairs.last(), other);
        assert(before.push(pairs.last()) =~= pairs);
        if pairs.last().0 != key {
            lemma_first_value_push(without_key(before, key), pairs.last(), other);
        }
    }
}

/// A pair at the end counts where the key has no value before it.
proof fn lemma_first_value_push(
    pairs: Seq<(Seq<char>, Seq<char>)>,
    last: (Seq<char>, Seq<char>),
    key: Seq<char>,
)
    ensures
        first_value(pairs.push(last), key) == match first_value(pairs, key) {
            Some(v) => Some(v),
            None => if last.0 == key {
                Some(last.1)
            } else {
                None
            },
        },
    decreases pairs.len(),
{
    let all = pairs.push(last);
    if pairs.len() == 0 {
        assert(all.subrange(1, all.len() as int) =~= Seq::<(Seq<char>, Seq<char>)>::empty());
        reveal_with_fuel(first_value, 2);
    } else if pairs[0].0 != key {
        let rest = pairs.subrange(1, pairs.len() as int);
        lemma_first_value_push(rest, last, key);
        assert(all.subrange(1, all.len() as int) =~= rest.push(last));
    }
}

/// Setting a value changes that value and no other.
pub proof fn law_set_and_look_up(
    sections: Map<Seq<char>, Seq<(Seq<char>, Seq<char>)>>,
    section: Seq<char>,
    key: Seq<char>,
    value: Seq<char>,
    other_section: Seq<char>,
    other_key: Seq<char>,
)
    ensures
        lookup(with_value(sections, section, key, value), other_section, other_key) == if section
            == other_section && key == other_key {
            Some(value)
        } else {
            lookup(sections, other_section, other_key)
        },
{
    let pairs = section_pairs(sections, section);
    lemma_without_key(pairs, key, other_key);
    lemma_first_value_push(without_key(pairs, key), (key, value), other_key);
}

} // verus!
