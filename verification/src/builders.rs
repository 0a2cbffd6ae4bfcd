//! Element builders and their shared attribute guards: every rule that
//! turns one markup element into one validated entity, stated as a spec
//! function and proved of the executable builder.

use vstd::prelude::*;

use crate::model::ArmIrqTrigger;
use crate::model::Channel;
use crate::model::ErrV;
use crate::model::MrV;
use crate::model::ParseError;
use crate::model::PdV;
use crate::model::PlatformDescription;
use crate::model::ProtectionDomain;
use crate::model::SysIrq;
use crate::model::SysMemoryRegion;
use crate::model::page_sizes_wf;
use crate::model::pds_view;
use crate::text::spec_parse_u64;
use crate::text::str_eq;
use crate::xml::XmlAttr;
use crate::xml::XmlElement;
use crate::xml::XmlNode;
use crate::xml::find_attr;
use crate::xml::spec_find_attr;

verus! {

/// The views of a list of attribute names.
pub open spec fn seq_views(allowed: Seq<&str>) -> Seq<Seq<char>> {
    allowed.map(|i: int, s: &str| s@)
}

/// The name stands in the allow-list.
pub open spec fn spec_attr_allowed(name: Seq<char>, allowed: Seq<Seq<char>>) -> bool {
    exists|j: int| 0 <= j < allowed.len() && allowed[j] == name
}

/// The first attribute outside the allow-list, as the error rejecting the
/// whole element; nothing when every attribute is allowed.
pub open spec fn spec_check_attrs(tag: Seq<char>, attrs: Seq<XmlAttr>, allowed: Seq<Seq<char>>) -> Option<ErrV>
    decreases attrs.len(),
{
    if attrs.len() == 0 {
        None
    } else if !spec_attr_allowed(attrs[0].name@, allowed) {
        Some(ErrV::UnknownAttribute { element: tag, attribute: attrs[0].name@ })
    } else {
        spec_check_attrs(tag, attrs.drop_first(), allowed)
    }
}

fn is_allowed<const N: usize>(name: &String, allowed: &[&str; N]) -> (r: bool)
    ensures
        r == spec_attr_allowed(name@, seq_views(allowed@)),
{
    let mut k: usize = 0;
    while k < N
        invariant
            0 <= k <= N,
            forall|j: int| 0 <= j < k ==> seq_views(allowed@)[j] != name@,
        decreases N - k,
    {
        if str_eq(allowed[k], name.as_str()) {
            proof {
                assert(seq_views(allowed@)[k as int] == allowed@[k as int]@);
            }
            return true;
        }
        k += 1;
    }
    false
}

/// Reject any attribute not in the allow-list, naming the element and the
/// offending attribute.
pub fn check_attributes<const N: usize>(e: &XmlElement, allowed: &[&str; N]) -> (r: Result<
    (),
    ParseError,
>)
    ensures
        match r {
            Ok(_) => spec_check_attrs(e.tag@, e.attrs@, seq_views(allowed@)) is None,
            Err(err) => spec_check_attrs(e.tag@, e.attrs@, seq_views(allowed@)) == Some(err@),
        },
{
    let n = e.attrs.len();
    let mut i: usize = 0;
    proof {
        assert(e.attrs@.skip(0) =~= e.attrs@);
    }
    while i < n
        invariant
            n == e.attrs@.len(),
            0 <= i <= n,
            spec_check_attrs(e.tag@, e.attrs@, seq_views(allowed@)) == spec_check_attrs(
                e.tag@,
                e.attrs@.skip(i as int),
                seq_views(allowed@),
            ),
        decreases n - i,
    {
        proof {
            assert(e.attrs@.skip(i as int)[0] == e.attrs@[i as int]);
            assert(e.attrs@.skip(i as int).drop_first() =~= e.attrs@.skip(i + 1));
        }
        if !is_allowed(&e.attrs[i].name, allowed) {
            return Err(
                ParseError::UnknownAttribute {
                    element: e.tag.clone(),
                    attribute: e.attrs[i].name.clone(),
                },
            );
        }
        i += 1;
    }
    proof {
        assert(e.attrs@.skip(n as int) =~= Seq::<XmlAttr>::empty());
    }
    Ok(())
}

/// A required attribute's value, or the error naming the element and the
/// absent attribute.
pub open spec fn spec_required(tag: Seq<char>, attrs: Seq<XmlAttr>, name: Seq<char>) -> Result<
    Seq<char>,
    ErrV,
> {
    match spec_find_attr(attrs, name) {
        Some(v) => Ok(v),
        None => Err(ErrV::MissingAttribute { element: tag, attribute: name }),
    }
}

/// Fetch a required attribute or fail.
pub fn checked_lookup<'e>(e: &'e XmlElement, name: &str) -> (r: Result<&'e String, ParseError>)
    ensures
        match r {
            Ok(v) => spec_required(e.tag@, e.attrs@, name@) == Ok::<Seq<char>, ErrV>(v@),
            Err(err) => spec_required(e.tag@, e.attrs@, name@) == Err::<Seq<char>, ErrV>(err@),
        },
{
    match find_attr(e, name) {
        Some(v) => Ok(v),
        None => Err(
            ParseError::MissingAttribute { element: e.tag.clone(), attribute: name.to_owned() },
        ),
    }
}

/// The rejection of a value that is not an integer of the expected range;
/// the raw text is kept as found, never coerced.
pub open spec fn spec_out_of_range(
    tag: Seq<char>,
    attr: Seq<char>,
    min: u64,
    max: u64,
    raw: Seq<char>,
) -> ErrV {
    ErrV::OutOfRange { element: tag, attribute: attr, min, max, actual: raw }
}

/// An integer attribute value within [min, max]: the value, or the
/// rejection of text that is no integer, does not fit, or is out of range.
pub open spec fn spec_ranged(
    tag: Seq<char>,
    attr: Seq<char>,
    raw: Seq<char>,
    min: u64,
    max: u64,
) -> Result<u64, ErrV> {
    match spec_parse_u64(raw) {
        Some(v) => if min <= v && v <= max {
            Ok(v)
        } else {
            Err(spec_out_of_range(tag, attr, min, max, raw))
        },
        None => Err(spec_out_of_range(tag, attr, min, max, raw)),
    }
}

/// Shared numeric range check, naming the element and attribute checked.
pub fn parse_ranged(e: &XmlElement, attr: &str, raw: &String, min: u64, max: u64) -> (r: Result<
    u64,
    ParseError,
>)
    ensures
        match r {
            Ok(v) => spec_ranged(e.tag@, attr@, raw@, min, max) == Ok::<u64, ErrV>(v),
            Err(err) => spec_ranged(e.tag@, attr@, raw@, min, max) == Err::<u64, ErrV>(err@),
        },
{
    match crate::text::parse_u64(raw.as_str()) {
        Some(v) => {
            if min <= v && v <= max {
                Ok(v)
            } else {
                Err(
                    ParseError::OutOfRange {
                        element: e.tag.clone(),
                        attribute: attr.to_owned(),
                        min,
                        max,
                        actual: raw.clone(),
                    },
                )
            }
        },
        None => Err(
            ParseError::OutOfRange {
                element: e.tag.clone(),
                attribute: attr.to_owned(),
                min,
                max,
                actual: raw.clone(),
            },
        ),
    }
}

/// An optional integer attribute: its fallback when absent, else the range
/// check above.
pub open spec fn spec_opt_ranged(
    e: XmlElement,
    attr: Seq<char>,
    min: u64,
    max: u64,
    fallback: u64,
) -> Result<u64, ErrV> {
    match spec_find_attr(e.attrs@, attr) {
        None => Ok(fallback),
        Some(raw) => spec_ranged(e.tag@, attr, raw, min, max),
    }
}

pub fn opt_ranged(e: &XmlElement, attr: &str, min: u64, max: u64, fallback: u64) -> (r: Result<
    u64,
    ParseError,
>)
    ensures
        match r {
            Ok(v) => spec_opt_ranged(*e, attr@, min, max, fallback) == Ok::<u64, ErrV>(v),
            Err(err) => spec_opt_ranged(*e, attr@, min, max, fallback) == Err::<u64, ErrV>(err@),
        },
{
    match find_attr(e, attr) {
        None => Ok(fallback),
        Some(raw) => {
            let raw = raw.clone();
            parse_ranged(e, attr, &raw, min, max)
        },
    }
}

/// A boolean attribute value: exactly "true" or "false"; anything else is
/// rejected, with 0 and 1 as the bounds of the set of accepted values.
pub open spec fn spec_bool_value(tag: Seq<char>, attr: Seq<char>, raw: Seq<char>) -> Result<
    bool,
    ErrV,
> {
    if raw == "true"@ {
        Ok(true)
    } else if raw == "false"@ {
        Ok(false)
    } else {
        Err(spec_out_of_range(tag, attr, 0, 1, raw))
    }
}

/// An optional boolean attribute, false when absent.
pub open spec fn spec_opt_bool(e: XmlElement, attr: Seq<char>) -> Result<bool, ErrV> {
    match spec_find_attr(e.attrs@, attr) {
        None => Ok(false),
        Some(raw) => spec_bool_value(e.tag@, attr, raw),
    }
}

pub fn opt_bool(e: &XmlElement, attr: &str) -> (r: Result<bool, ParseError>)
    ensures
        match r {
            Ok(v) => spec_opt_bool(*e, attr@) == Ok::<bool, ErrV>(v),
            Err(err) => spec_opt_bool(*e, attr@) == Err::<bool, ErrV>(err@),
        },
{
    match find_attr(e, attr) {
        None => Ok(false),
        Some(raw) => {
            if str_eq(raw.as_str(), "true") {
                Ok(true)
            } else if str_eq(raw.as_str(), "false") {
                Ok(false)
            } else {
                Err(
                    ParseError::OutOfRange {
                        element: e.tag.clone(),
                        attribute: attr.to_owned(),
                        min: 0,
                        max: 1,
                        actual: raw.clone(),
                    },
                )
            }
        },
    }
}

/// The attributes a `protection_domain` element may carry.
pub open spec fn pd_allowed() -> Seq<Seq<char>> {
    seq!["name"@, "priority"@, "pp"@, "budget"@, "period"@, "passive"@]
}

/// The `path` values of the `program_image` children, in document order;
/// a `program_image` without a path fails at once.
pub open spec fn spec_pd_images(children: Seq<XmlNode>, acc: Seq<Seq<char>>) -> Result<
    Seq<Seq<char>>,
    ErrV,
>
    decreases children.len(),
{
    if children.len() == 0 {
        Ok(acc)
    } else {
        match children[0] {
            XmlNode::Other => spec_pd_images(children.drop_first(), acc),
            XmlNode::Element(c) => if c.tag@ == "program_image"@ {
                match spec_find_attr(c.attrs@, "path"@) {
                    Some(p) => spec_pd_images(children.drop_first(), acc.push(p)),
                    None => Err(
                        ErrV::MissingAttribute {
                            element: "program_image"@,
                            attribute: "path"@,
                        },
                    ),
                }
            } else {
                spec_pd_images(children.drop_first(), acc)
            },
        }
    }
}

/// The attribute part of a protection domain: required name; priority in
/// 0..=254, 0 when absent; budget and period positive 32-bit tick counts,
/// 1000 when absent; pp and passive booleans, false when absent.
pub open spec fn spec_pd_fields(e: XmlElement) -> Result<
    (Seq<char>, u64, u64, u64, bool, bool),
    ErrV,
> {
    match spec_required(e.tag@, e.attrs@, "name"@) {
        Err(err) => Err(err),
        Ok(name) => match spec_opt_ranged(e, "priority"@, 0, 254, 0) {
            Err(err) => Err(err),
            Ok(priority) => match spec_opt_ranged(e, "budget"@, 1, 0xFFFF_FFFF, 1000) {
                Err(err) => Err(err),
                Ok(budget) => match spec_opt_ranged(e, "period"@, 1, 0xFFFF_FFFF, 1000) {
                    Err(err) => Err(err),
                    Ok(period) => match spec_opt_bool(e, "pp"@) {
                        Err(err) => Err(err),
                        Ok(pp) => match spec_opt_bool(e, "passive"@) {
                            Err(err) => Err(err),
                            Ok(passive) => Ok((name, priority, budget, period, pp, passive)),
                        },
                    },
                },
            },
        },
    }
}

/// What building a protection domain from one element yields: the entity
/// with every attribute validated and exactly one program image, or the
/// first violation found.
pub open spec fn spec_pd_from(e: XmlElement) -> Result<PdV, ErrV> {
    match spec_check_attrs(e.tag@, e.attrs@, pd_allowed()) {
        Some(err) => Err(err),
        None => match spec_pd_fields(e) {
            Err(err) => Err(err),
            Ok(fields) => match spec_pd_images(e.children@, Seq::empty()) {
                Err(err) => Err(err),
                Ok(paths) => if paths.len() != 1 {
                    Err(
                        ErrV::CardinalityError {
                            element: "program_image"@,
                            expected: 1,
                            actual: paths.len() as u64,
                        },
                    )
                } else {
                    Ok(
                        PdV {
                            name: fields.0,
                            priority: fields.1 as u32,
                            budget: fields.2 as u32,
                            period: fields.3 as u32,
                            pp: fields.4,
                            passive: fields.5,
                            program_image: paths[0],
                            maps: Seq::empty(),
                            irqs: Seq::empty(),
                            setvars: Seq::empty(),
                        },
                    )
                },
            },
        },
    }
}

impl ProtectionDomain {
    /// Build one protection domain from a `protection_domain` element,
    /// validating every attribute and requiring exactly one
    /// `program_image` child with a `path`.
    #[verifier::loop_isolation(false)]
    pub fn from_xml(e: &XmlElement) -> (r: Result<ProtectionDomain, ParseError>)
        ensures
            match r {
                Ok(pd) => spec_pd_from(*e) == Ok::<PdV, ErrV>(pd@),
                Err(err) => spec_pd_from(*e) == Err::<PdV, ErrV>(err@),
            },
    {
        let allowed: [&str; 6] = ["name", "priority", "pp", "budget", "period", "passive"];
        proof {
            assert(seq_views(allowed@) =~= pd_allowed());
        }
        match check_attributes(e, &allowed) {
            Err(err) => {
                return Err(err);
            },
            Ok(_) => {},
        }
        let name = match checked_lookup(e, "name") {
            Ok(v) => v.clone(),
            Err(err) => {
                return Err(err);
            },
        };
        let priority = match opt_ranged(e, "priority", 0, 254, 0) {
            Ok(v) => v,
            Err(err) => {
                return Err(err);
            },
        };
        let budget = match opt_ranged(e, "budget", 1, 0xFFFF_FFFF, 1000) {
            Ok(v) => v,
            Err(err) => {
                return Err(err);
            },
        };
        let period = match opt_ranged(e, "period", 1, 0xFFFF_FFFF, 1000) {
            Ok(v) => v,
            Err(err) => {
                return Err(err);
            },
        };
        let pp = match opt_bool(e, "pp") {
            Ok(v) => v,
            Err(err) => {
                return Err(err);
            },
        };
        let passive = match opt_bool(e, "passive") {
            Ok(v) => v,
            Err(err) => {
                return Err(err);
            },
        };
        let n = e.children.len();
        let mut i: usize = 0;
        let mut image: Option<String> = None;
        let mut count: u64 = 0;
        let ghost mut gpaths: Seq<Seq<char>> = Seq::empty();
        proof {
            assert(e.children@.skip(0) =~= e.children@);
        }
        while i < n
            invariant
                n == e.children@.len(),
                0 <= i <= n,
                count <= i,
                spec_pd_images(e.children@, Seq::empty()) == spec_pd_images(
                    e.children@.skip(i as int),
                    gpaths,
                ),
                gpaths.len() == count,
                count > 0 ==> (image matches Some(p) && p@ == gpaths.last()),
                count == 0 ==> image is None,
            decreases n - i,
        {
            proof {
                assert(e.children@.skip(i as int)[0] == e.children@[i as int]);
                assert(e.children@.skip(i as int).drop_first() =~= e.children@.skip(i + 1));
            }
            match &e.children[i] {
                XmlNode::Other => {},
                XmlNode::Element(c) => {
                    if str_eq(c.tag.as_str(), "program_image") {
                        match find_attr(c, "path") {
                            Some(p) => {
                                image = Some(p.clone());
                                count = count + 1;
                                proof {
                                    gpaths = gpaths.push(p@);
                                }
                            },
                            None => {
                                return Err(
                                    ParseError::MissingAttribute {
                                        element: "program_image".to_owned(),
                                        attribute: "path".to_owned(),
                                    },
                                );
                            },
                        }
                    }
                },
            }
            i += 1;
        }
        proof {
            assert(e.children@.skip(n as int) =~= Seq::<XmlNode>::empty());
        }
        if count != 1 {
            return Err(
                ParseError::CardinalityError {
                    element: "program_image".to_owned(),
                    expected: 1,
                    actual: count,
                },
            );
        }
        let program_image = match image {
            Some(p) => p,
            None => {
                return Err(
                    ParseError::CardinalityError {
                        element: "program_image".to_owned(),
                        expected: 1,
                        actual: 0,
                    },
                );
            },
        };
        Ok(
            ProtectionDomain {
                name,
                priority: priority as u32,
                budget: budget as u32,
                period: period as u32,
                pp,
                passive,
                program_image,
                maps: Vec::new(),
                irqs: Vec::new(),
                setvars: Vec::new(),
            },
        )
    }
}

/// The zero-based position of the first domain with the given name.
pub open spec fn spec_resolve(pds: Seq<PdV>, name: Seq<char>) -> Option<int>
    decreases pds.len(),
{
    if pds.len() == 0 {
        None
    } else if pds[0].name == name {
        Some(0)
    } else {
        match spec_resolve(pds.drop_first(), name) {
            Some(i) => Some(i + 1),
            None => None,
        }
    }
}

proof fn lemma_resolve_found(pds: Seq<PdV>, name: Seq<char>, j: int)
    requires
        0 <= j < pds.len(),
        pds[j].name == name,
        forall|k: int| 0 <= k < j ==> pds[k].name != name,
    ensures
        spec_resolve(pds, name) == Some(j),
    decreases j,
{
    if j > 0 {
        assert(pds[0].name != name);
        lemma_resolve_found(pds.drop_first(), name, j - 1);
    }
}

/// A resolved position always stands inside the domain list.
pub proof fn lemma_resolve_in_range(pds: Seq<PdV>, name: Seq<char>)
    requires
        spec_resolve(pds, name) is Some,
    ensures
        0 <= spec_resolve(pds, name)->Some_0 < pds.len(),
    decreases pds.len(),
{
    if pds.len() > 0 && pds[0].name != name {
        lemma_resolve_in_range(pds.drop_first(), name);
    }
}

proof fn lemma_resolve_none(pds: Seq<PdV>, name: Seq<char>)
    requires
        forall|k: int| 0 <= k < pds.len() ==> pds[k].name != name,
    ensures
        spec_resolve(pds, name) is None,
    decreases pds.len(),
{
    if pds.len() > 0 {
        lemma_resolve_none(pds.drop_first(), name);
    }
}

/// Resolve a domain name to its position in the domain list.
#[verifier::loop_isolation(false)]
pub(crate) fn resolve_pd(pds: &Vec<ProtectionDomain>, name: &String) -> (r: Option<usize>)
    ensures
        match r {
            Some(i) => spec_resolve(pds_view(pds@), name@) == Some(i as int) && i < pds@.len(),
            None => spec_resolve(pds_view(pds@), name@) is None,
        },
{
    let n = pds.len();
    let mut j: usize = 0;
    while j < n
        invariant
            0 <= j <= n,
            forall|k: int| 0 <= k < j ==> pds_view(pds@)[k].name != name@,
        decreases n - j,
    {
        if pds[j].name == *name {
            proof {
                lemma_resolve_found(pds_view(pds@), name@, j as int);
            }
            return Some(j);
        }
        j += 1;
    }
    proof {
        lemma_resolve_none(pds_view(pds@), name@);
    }
    None
}

/// The attributes an `end` element may carry.
pub open spec fn end_allowed() -> Seq<Seq<char>> {
    seq!["pd"@, "id"@]
}

/// What one `end` child yields: the referenced domain's position and the
/// badge id in 0..=62, or the first violation found.
pub open spec fn spec_end_from(c: XmlElement, pds: Seq<PdV>) -> Result<(int, u64), ErrV> {
    match spec_check_attrs(c.tag@, c.attrs@, end_allowed()) {
        Some(err) => Err(err),
        None => match spec_required(c.tag@, c.attrs@, "pd"@) {
            Err(err) => Err(err),
            Ok(pd_name) => match spec_required(c.tag@, c.attrs@, "id"@) {
                Err(err) => Err(err),
                Ok(raw_id) => match spec_ranged(c.tag@, "id"@, raw_id, 0, 62) {
                    Err(err) => Err(err),
                    Ok(id) => match spec_resolve(pds, pd_name) {
                        None => Err(
                            ErrV::UnresolvedReference {
                                kind: "protection_domain"@,
                                name: pd_name,
                            },
                        ),
                        Some(idx) => Ok((idx, id)),
                    },
                },
            },
        },
    }
}

/// The channel's endpoints in document order: every element child must be
/// an `end`; non-element nodes are skipped.
pub open spec fn spec_channel_ends(
    children: Seq<XmlNode>,
    pds: Seq<PdV>,
    acc: Seq<(int, u64)>,
) -> Result<Seq<(int, u64)>, ErrV>
    decreases children.len(),
{
    if children.len() == 0 {
        Ok(acc)
    } else {
        match children[0] {
            XmlNode::Other => spec_channel_ends(children.drop_first(), pds, acc),
            XmlNode::Element(c) => if c.tag@ == "end"@ {
                match spec_end_from(c, pds) {
                    Err(err) => Err(err),
                    Ok(end) => spec_channel_ends(children.drop_first(), pds, acc.push(end)),
                }
            } else {
                Err(ErrV::UnsupportedElement { tag: c.tag@ })
            },
        }
    }
}

proof fn lemma_ends_in_range(children: Seq<XmlNode>, pds: Seq<PdV>, acc: Seq<(int, u64)>)
    requires
        spec_channel_ends(children, pds, acc) is Ok,
        forall|k: int| 0 <= k < acc.len() ==> 0 <= (#[trigger] acc[k]).0 < pds.len(),
    ensures
        forall|k: int|
            0 <= k < (spec_channel_ends(children, pds, acc)->Ok_0).len() ==> 0 <= (
            #[trigger] (spec_channel_ends(children, pds, acc)->Ok_0)[k]).0 < pds.len(),
    decreases children.len(),
{
    if children.len() > 0 {
        let rest = children.drop_first();
        match children[0] {
            XmlNode::Other => {
                lemma_ends_in_range(rest, pds, acc);
            },
            XmlNode::Element(c) => {
                let end = spec_end_from(c, pds)->Ok_0;
                lemma_resolve_in_range(pds, spec_required(c.tag@, c.attrs@, "pd"@)->Ok_0);
                lemma_ends_in_range(rest, pds, acc.push(end));
            },
        }
    }
}

/// Both positions an accepted channel holds stand inside the domain list
/// it was resolved against.
pub proof fn lemma_channel_in_range(e: XmlElement, pds: Seq<PdV>)
    requires
        spec_channel_from(e, pds) is Ok,
    ensures
        (spec_channel_from(e, pds)->Ok_0).pd_a < pds.len(),
        (spec_channel_from(e, pds)->Ok_0).pd_b < pds.len(),
{
    lemma_ends_in_range(e.children@, pds, Seq::empty());
}

/// What building a channel from one element yields: the element carries no
/// attributes and exactly two `end` children, each resolved against the
/// domains declared earlier in the document.
pub open spec fn spec_channel_from(e: XmlElement, pds: Seq<PdV>) -> Result<Channel, ErrV> {
    match spec_check_attrs(e.tag@, e.attrs@, Seq::empty()) {
        Some(err) => Err(err),
        None => match spec_channel_ends(e.children@, pds, Seq::empty()) {
            Err(err) => Err(err),
            Ok(ends) => if ends.len() != 2 {
                Err(
                    ErrV::CardinalityError {
                        element: e.tag@,
                        expected: 2,
                        actual: ends.len() as u64,
                    },
                )
            } else {
                Ok(
                    Channel {
                        pd_a: ends[0].0 as usize,
                        id_a: ends[0].1,
                        pd_b: ends[1].0 as usize,
                        id_b: ends[1].1,
                    },
                )
            },
        },
    }
}

impl Channel {
    /// Build one channel from a `channel` element, given the domains
    /// already produced by earlier elements of the document.
    #[verifier::loop_isolation(false)]
    pub fn from_xml(e: &XmlElement, pds: &Vec<ProtectionDomain>) -> (r: Result<
        Channel,
        ParseError,
    >)
        ensures
            match r {
                Ok(ch) => spec_channel_from(*e, pds_view(pds@)) == Ok::<Channel, ErrV>(ch),
                Err(err) => spec_channel_from(*e, pds_view(pds@)) == Err::<Channel, ErrV>(err@),
            },
    {
        let allowed: [&str; 0] = [];
        proof {
            assert(seq_views(allowed@) =~= Seq::<Seq<char>>::empty());
        }
        match check_attributes(e, &allowed) {
            Err(err) => {
                return Err(err);
            },
            Ok(_) => {},
        }
        let n = e.children.len();
        let mut i: usize = 0;
        let mut ends: Vec<(usize, u64)> = Vec::new();
        let ghost mut gends: Seq<(int, u64)> = Seq::empty();
        proof {
            assert(e.children@.skip(0) =~= e.children@);
        }
        while i < n
            invariant
                0 <= i <= n,
                spec_channel_ends(e.children@, pds_view(pds@), Seq::empty())
                    == spec_channel_ends(e.children@.skip(i as int), pds_view(pds@), gends),
                gends.len() == ends@.len(),
                forall|k: int| 0 <= k < gends.len() ==> gends[k].0 == #[trigger] ends@[k].0 as int
                    && gends[k].1 == ends@[k].1,
            decreases n - i,
        {
            proof {
                assert(e.children@.skip(i as int)[0] == e.children@[i as int]);
                assert(e.children@.skip(i as int).drop_first() =~= e.children@.skip(i + 1));
            }
            match &e.children[i] {
                XmlNode::Other => {},
                XmlNode::Element(c) => {
                    if !str_eq(c.tag.as_str(), "end") {
                        return Err(ParseError::UnsupportedElement { tag: c.tag.clone() });
                    }
                    let end_allowed_x: [&str; 2] = ["pd", "id"];
                    proof {
                        assert(seq_views(end_allowed_x@) =~= end_allowed());
                    }
                    match check_attributes(c, &end_allowed_x) {
                        Err(err) => {
                            return Err(err);
                        },
                        Ok(_) => {},
                    }
                    let end_pd = match checked_lookup(c, "pd") {
                        Ok(v) => v.clone(),
                        Err(err) => {
                            return Err(err);
                        },
                    };
                    let end_id_raw = match checked_lookup(c, "id") {
                        Ok(v) => v.clone(),
                        Err(err) => {
                            return Err(err);
                        },
                    };
                    let end_id = match parse_ranged(c, "id", &end_id_raw, 0, 62) {
                        Ok(v) => v,
                        Err(err) => {
                            return Err(err);
                        },
                    };
                    let pd_idx = match resolve_pd(pds, &end_pd) {
                        Some(idx) => idx,
                        None => {
                            return Err(
                                ParseError::UnresolvedReference {
                                    kind: "protection_domain".to_owned(),
                                    name: end_pd,
                                },
                            );
                        },
                    };
                    ends.push((pd_idx, end_id));
                    proof {
                        gends = gends.push((pd_idx as int, end_id));
                    }
                },
            }
            i += 1;
        }
        proof {
            assert(e.children@.skip(n as int) =~= Seq::<XmlNode>::empty());
        }
        if ends.len() != 2 {
            let actual = ends.len() as u64;
            return Err(
                ParseError::CardinalityError {
                    element: e.tag.clone(),
                    expected: 2,
                    actual,
                },
            );
        }
        let end_a = ends[0];
        let end_b = ends[1];
        Ok(Channel { pd_a: end_a.0, id_a: end_a.1, pd_b: end_b.0, id_b: end_b.1 })
    }
}

/// The attributes a `memory_region` element may carry.
pub open spec fn mr_allowed() -> Seq<Seq<char>> {
    seq!["name"@, "size"@, "page_size"@, "phys_addr"@]
}

/// The region's page size: the platform's smallest when absent, else a
/// value that must stand in the platform's page-size table; the table's
/// smallest and largest entries bound the rejection.
pub open spec fn spec_mr_page_size(e: XmlElement, sizes: Seq<u64>) -> Result<u64, ErrV> {
    match spec_find_attr(e.attrs@, "page_size"@) {
        None => Ok(sizes[0]),
        Some(raw) => match spec_parse_u64(raw) {
            Some(v) => if sizes.contains(v) {
                Ok(v)
            } else {
                Err(spec_out_of_range(e.tag@, "page_size"@, sizes.first(), sizes.last(), raw))
            },
            None => Err(spec_out_of_range(e.tag@, "page_size"@, sizes.first(), sizes.last(), raw)),
        },
    }
}

/// The optional fixed physical address.
pub open spec fn spec_mr_phys(e: XmlElement) -> Result<Option<u64>, ErrV> {
    match spec_find_attr(e.attrs@, "phys_addr"@) {
        None => Ok(None),
        Some(raw) => match spec_ranged(e.tag@, "phys_addr"@, raw, 0, u64::MAX) {
            Ok(v) => Ok(Some(v)),
            Err(err) => Err(err),
        },
    }
}

/// What building a memory region from one element yields: a required name
/// and size, a page size drawn from the platform table, the derived page
/// count, and an optional fixed physical address.
pub open spec fn spec_mr_from(e: XmlElement, sizes: Seq<u64>) -> Result<MrV, ErrV> {
    match spec_check_attrs(e.tag@, e.attrs@, mr_allowed()) {
        Some(err) => Err(err),
        None => match spec_required(e.tag@, e.attrs@, "name"@) {
            Err(err) => Err(err),
            Ok(name) => match spec_required(e.tag@, e.attrs@, "size"@) {
                Err(err) => Err(err),
                Ok(raw_size) => match spec_ranged(e.tag@, "size"@, raw_size, 0, u64::MAX) {
                    Err(err) => Err(err),
                    Ok(size) => match spec_mr_page_size(e, sizes) {
                        Err(err) => Err(err),
                        Ok(page_size) => match spec_mr_phys(e) {
                            Err(err) => Err(err),
                            Ok(phys_addr) => Ok(
                                MrV {
                                    name,
                                    size,
                                    page_size,
                                    page_count: ((size as int) / (page_size as int)) as u64,
                                    phys_addr,
                                },
                            ),
                        },
                    },
                },
            },
        },
    }
}

#[verifier::loop_isolation(false)]
fn contains_size(sizes: &Vec<u64>, v: u64) -> (r: bool)
    ensures
        r == sizes@.contains(v),
{
    let n = sizes.len();
    let mut k: usize = 0;
    while k < n
        invariant
            0 <= k <= n,
            forall|j: int| 0 <= j < k ==> sizes@[j] != v,
        decreases n - k,
    {
        if sizes[k] == v {
            proof {
                assert(sizes@[k as int] == v);
            }
            return true;
        }
        k += 1;
    }
    false
}

impl SysMemoryRegion {
    /// Build one memory region from a `memory_region` element, against
    /// the platform's page-size table.
    pub fn from_xml(e: &XmlElement, plat: &PlatformDescription) -> (r: Result<
        SysMemoryRegion,
        ParseError,
    >)
        requires
            page_sizes_wf(plat@),
        ensures
            match r {
                Ok(mr) => spec_mr_from(*e, plat@) == Ok::<MrV, ErrV>(mr@),
                Err(err) => spec_mr_from(*e, plat@) == Err::<MrV, ErrV>(err@),
            },
    {
        let allowed: [&str; 4] = ["name", "size", "page_size", "phys_addr"];
        proof {
            assert(seq_views(allowed@) =~= mr_allowed());
        }
        match check_attributes(e, &allowed) {
            Err(err) => {
                return Err(err);
            },
            Ok(_) => {},
        }
        let name = match checked_lookup(e, "name") {
            Ok(v) => v.clone(),
            Err(err) => {
                return Err(err);
            },
        };
        let raw_size = match checked_lookup(e, "size") {
            Ok(v) => v.clone(),
            Err(err) => {
                return Err(err);
            },
        };
        let size = match parse_ranged(e, "size", &raw_size, 0, u64::MAX) {
            Ok(v) => v,
            Err(err) => {
                return Err(err);
            },
        };
        let sizes = plat.page_sizes();
        let page_size = match find_attr(e, "page_size") {
            None => sizes[0],
            Some(raw) => {
                let raw = raw.clone();
                match crate::text::parse_u64(raw.as_str()) {
                    Some(v) => {
                        if contains_size(sizes, v) {
                            v
                        } else {
                            return Err(
                                ParseError::OutOfRange {
                                    element: e.tag.clone(),
                                    attribute: "page_size".to_owned(),
                                    min: sizes[0],
                                    max: sizes[sizes.len() - 1],
                                    actual: raw,
                                },
                            );
                        }
                    },
                    None => {
                        return Err(
                            ParseError::OutOfRange {
                                element: e.tag.clone(),
                                attribute: "page_size".to_owned(),
                                min: sizes[0],
                                max: sizes[sizes.len() - 1],
                                actual: raw,
                            },
                        );
                    },
                }
            },
        };
        proof {
            assert(page_size > 0) by {
                if plat@.contains(page_size) {
                    let w = choose|w: int| 0 <= w < plat@.len() && plat@[w] == page_size;
                    if w > 0 {
                        assert(plat@[0] < plat@[w]);
                    }
                }
            }
        }
        let phys_addr = match find_attr(e, "phys_addr") {
            None => None,
            Some(raw) => {
                let raw = raw.clone();
                match parse_ranged(e, "phys_addr", &raw, 0, u64::MAX) {
                    Ok(v) => Some(v),
                    Err(err) => {
                        return Err(err);
                    },
                }
            },
        };
        let page_count = size / page_size;
        Ok(SysMemoryRegion { name, size, page_size, page_count, phys_addr })
    }
}

/// The attributes an `irq` element may carry.
pub open spec fn irq_allowed() -> Seq<Seq<char>> {
    seq!["irq"@, "id"@, "trigger"@]
}

/// The trigger mode: level when absent, else exactly "level" or "edge".
pub open spec fn spec_irq_trigger(e: XmlElement) -> Result<ArmIrqTrigger, ErrV> {
    match spec_find_attr(e.attrs@, "trigger"@) {
        None => Ok(ArmIrqTrigger::Level),
        Some(raw) => if raw == "level"@ {
            Ok(ArmIrqTrigger::Level)
        } else if raw == "edge"@ {
            Ok(ArmIrqTrigger::Edge)
        } else {
            Err(spec_out_of_range(e.tag@, "trigger"@, 0, 1, raw))
        },
    }
}

/// What building an IRQ binding from one element yields: a required
/// hardware interrupt number, a badge id in 0..=62, and a trigger mode.
pub open spec fn spec_irq_from(e: XmlElement) -> Result<SysIrq, ErrV> {
    match spec_check_attrs(e.tag@, e.attrs@, irq_allowed()) {
        Some(err) => Err(err),
        None => match spec_required(e.tag@, e.attrs@, "irq"@) {
            Err(err) => Err(err),
            Ok(raw_irq) => match spec_ranged(e.tag@, "irq"@, raw_irq, 0, u64::MAX) {
                Err(err) => Err(err),
                Ok(irq) => match spec_required(e.tag@, e.attrs@, "id"@) {
                    Err(err) => Err(err),
                    Ok(raw_id) => match spec_ranged(e.tag@, "id"@, raw_id, 0, 62) {
                        Err(err) => Err(err),
                        Ok(id) => match spec_irq_trigger(e) {
                            Err(err) => Err(err),
                            Ok(trigger) => Ok(SysIrq { irq, id, trigger }),
                        },
                    },
                },
            },
        },
    }
}

impl SysIrq {
    /// Build one IRQ binding from an `irq` element.
    pub fn from_xml(e: &XmlElement) -> (r: Result<SysIrq, ParseError>)
        ensures
            match r {
                Ok(irq) => spec_irq_from(*e) == Ok::<SysIrq, ErrV>(irq),
                Err(err) => spec_irq_from(*e) == Err::<SysIrq, ErrV>(err@),
            },
    {
        let allowed: [&str; 3] = ["irq", "id", "trigger"];
        proof {
            assert(seq_views(allowed@) =~= irq_allowed());
        }
        match check_attributes(e, &allowed) {
            Err(err) => {
                return Err(err);
            },
            Ok(_) => {},
        }
        let raw_irq = match checked_lookup(e, "irq") {
            Ok(v) => v.clone(),
            Err(err) => {
                return Err(err);
            },
        };
        let irq = match parse_ranged(e, "irq", &raw_irq, 0, u64::MAX) {
            Ok(v) => v,
            Err(err) => {
                return Err(err);
            },
        };
        let raw_id = match checked_lookup(e, "id") {
            Ok(v) => v.clone(),
            Err(err) => {
                return Err(err);
            },
        };
        let id = match parse_ranged(e, "id", &raw_id, 0, 62) {
            Ok(v) => v,
            Err(err) => {
                return Err(err);
            },
        };
        let trigger = match find_attr(e, "trigger") {
            None => ArmIrqTrigger::Level,
            Some(raw) => {
                if str_eq(raw.as_str(), "level") {
                    ArmIrqTrigger::Level
                } else if str_eq(raw.as_str(), "edge") {
                    ArmIrqTrigger::Edge
                } else {
                    return Err(
                        ParseError::OutOfRange {
                            element: e.tag.clone(),
                            attribute: "trigger".to_owned(),
                            min: 0,
                            max: 1,
                            actual: raw.clone(),
                        },
                    );
                }
            },
        };
        Ok(SysIrq { irq, id, trigger })
    }
}

} // verus!
