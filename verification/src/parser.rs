//! The aggregate parser: one linear pass over the top-level elements of
//! the document, dispatching to the element builders, and the laws that
//! hold of it.

use vstd::prelude::*;

use crate::builders::lemma_channel_in_range;
use crate::builders::resolve_pd;
use crate::builders::spec_channel_from;
use crate::builders::spec_pd_from;
use crate::builders::spec_resolve;
use crate::model::Channel;
use crate::model::ErrV;
use crate::model::ParseError;
use crate::model::PdV;
use crate::model::PlatformDescription;
use crate::model::ProtectionDomain;
use crate::model::SysMemoryRegion;
use crate::model::SysV;
use crate::model::SystemDescription;
use crate::model::mrs_view;
use crate::model::pds_view;
use crate::model::MrV;
use crate::text::str_eq;
use crate::xml::XmlNode;
use crate::xml::parse_xml_tree;
use crate::xml::xml_tree_of;

verus! {

/// The empty description every parse starts from.
pub open spec fn empty_sys() -> SysV {
    SysV { pds: Seq::empty(), mrs: Seq::empty(), chs: Seq::empty() }
}

/// The badge id is already attached to the given domain by some channel
/// end in the list.
pub open spec fn badge_used(chs: Seq<Channel>, pd: usize, id: u64) -> bool {
    exists|k: int|
        0 <= k < chs.len() && (((#[trigger] chs[k]).pd_a == pd && chs[k].id_a == id) || (
        chs[k].pd_b == pd && chs[k].id_b == id))
}

/// One pass over the top-level elements in document order: protection
/// domains and channels are built and appended, a channel seeing only the
/// domains already built; any other element tag aborts the whole parse.
/// A domain whose name an earlier domain already carries is rejected, and
/// so is a channel end whose badge id is already attached to that domain
/// -- by an earlier channel or by the other end of the same one.
pub open spec fn spec_parse_items(children: Seq<XmlNode>, acc: SysV) -> Result<SysV, ErrV>
    decreases children.len(),
{
    if children.len() == 0 {
        Ok(acc)
    } else {
        match children[0] {
            XmlNode::Other => spec_parse_items(children.drop_first(), acc),
            XmlNode::Element(c) => if c.tag@ == "protection_domain"@ {
                match spec_pd_from(c) {
                    Err(err) => Err(err),
                    Ok(pd) => if spec_resolve(acc.pds, pd.name) is Some {
                        Err(ErrV::DuplicateName { kind: "protection_domain"@, name: pd.name })
                    } else {
                        spec_parse_items(
                            children.drop_first(),
                            SysV { pds: acc.pds.push(pd), mrs: acc.mrs, chs: acc.chs },
                        )
                    },
                }
            } else if c.tag@ == "channel"@ {
                match spec_channel_from(c, acc.pds) {
                    Err(err) => Err(err),
                    Ok(ch) => if badge_used(acc.chs, ch.pd_a, ch.id_a) {
                        Err(ErrV::DuplicateBadge { pd: ch.pd_a, id: ch.id_a })
                    } else if badge_used(acc.chs, ch.pd_b, ch.id_b) || (ch.pd_a == ch.pd_b
                        && ch.id_a == ch.id_b) {
                        Err(ErrV::DuplicateBadge { pd: ch.pd_b, id: ch.id_b })
                    } else {
                        spec_parse_items(
                            children.drop_first(),
                            SysV { pds: acc.pds, mrs: acc.mrs, chs: acc.chs.push(ch) },
                        )
                    },
                }
            } else {
                Err(ErrV::UnsupportedElement { tag: c.tag@ })
            },
        }
    }
}

#[verifier::loop_isolation(false)]
fn badge_used_in(chs: &Vec<Channel>, pd: usize, id: u64) -> (r: bool)
    ensures
        r == badge_used(chs@, pd, id),
{
    let n = chs.len();
    let mut k: usize = 0;
    while k < n
        invariant
            0 <= k <= n,
            forall|j: int|
                0 <= j < k ==> !(((#[trigger] chs@[j]).pd_a == pd && chs@[j].id_a == id) || (
                chs@[j].pd_b == pd && chs@[j].id_b == id)),
        decreases n - k,
    {
        let ch = chs[k];
        if (ch.pd_a == pd && ch.id_a == id) || (ch.pd_b == pd && ch.id_b == id) {
            proof {
                assert(chs@[k as int] == ch);
            }
            return true;
        }
        k += 1;
    }
    false
}

/// What parsing a document text yields: the malformed-document error for
/// text that is not well-formed XML, else the pass above over the root
/// element's children. Everything the outcome depends on stands in the
/// text itself.
pub open spec fn spec_parse_doc(text: Seq<char>) -> Result<SysV, ErrV> {
    match xml_tree_of(text) {
        None => Err(ErrV::MalformedDocument),
        Some(root) => spec_parse_items(root.children@, empty_sys()),
    }
}

/// Parse and validate one system description from its document text. The
/// first violation aborts the parse; no partial description is returned.
#[verifier::loop_isolation(false)]
#[allow(unused_variables)]
pub fn parse(xml: &str, plat_desc: PlatformDescription) -> (r: Result<
    SystemDescription,
    ParseError,
>)
    ensures
        match r {
            Ok(sys) => spec_parse_doc(xml@) == Ok::<SysV, ErrV>(sys@),
            Err(err) => spec_parse_doc(xml@) == Err::<SysV, ErrV>(err@),
        },
{
    let root = match parse_xml_tree(xml) {
        Some(root) => root,
        None => {
            return Err(ParseError::MalformedDocument);
        },
    };
    let mut pds: Vec<ProtectionDomain> = Vec::new();
    let mrs: Vec<SysMemoryRegion> = Vec::new();
    let mut channels: Vec<Channel> = Vec::new();
    let n = root.children.len();
    let mut i: usize = 0;
    proof {
        assert(root.children@.skip(0) =~= root.children@);
        assert(pds_view(pds@) =~= Seq::<PdV>::empty());
        assert(mrs_view(mrs@) =~= Seq::<MrV>::empty());
    }
    while i < n
        invariant
            0 <= i <= n,
            spec_parse_items(root.children@, empty_sys()) == spec_parse_items(
                root.children@.skip(i as int),
                SysV { pds: pds_view(pds@), mrs: mrs_view(mrs@), chs: channels@ },
            ),
        decreases n - i,
    {
        proof {
            assert(root.children@.skip(i as int)[0] == root.children@[i as int]);
            assert(root.children@.skip(i as int).drop_first() =~= root.children@.skip(i + 1));
        }
        match &root.children[i] {
            XmlNode::Other => {},
            XmlNode::Element(c) => {
                if str_eq(c.tag.as_str(), "protection_domain") {
                    match ProtectionDomain::from_xml(c) {
                        Ok(pd) => {
                            match resolve_pd(&pds, &pd.name) {
                                Some(_) => {
                                    return Err(
                                        ParseError::DuplicateName {
                                            kind: "protection_domain".to_owned(),
                                            name: pd.name.clone(),
                                        },
                                    );
                                },
                                None => {},
                            }
                            let ghost old_pds = pds_view(pds@);
                            let ghost pdv = pd@;
                            pds.push(pd);
                            proof {
                                assert(pds_view(pds@) =~= old_pds.push(pdv));
                            }
                        },
                        Err(err) => {
                            return Err(err);
                        },
                    }
                } else if str_eq(c.tag.as_str(), "channel") {
                    match Channel::from_xml(c, &pds) {
                        Ok(ch) => {
                            if badge_used_in(&channels, ch.pd_a, ch.id_a) {
                                return Err(ParseError::DuplicateBadge { pd: ch.pd_a, id: ch.id_a });
                            }
                            if badge_used_in(&channels, ch.pd_b, ch.id_b) || (ch.pd_a == ch.pd_b
                                && ch.id_a == ch.id_b) {
                                return Err(ParseError::DuplicateBadge { pd: ch.pd_b, id: ch.id_b });
                            }
                            channels.push(ch);
                        },
                        Err(err) => {
                            return Err(err);
                        },
                    }
                } else {
                    return Err(ParseError::UnsupportedElement { tag: c.tag.clone() });
                }
            },
        }
        i += 1;
    }
    proof {
        assert(root.children@.skip(n as int) =~= Seq::<XmlNode>::empty());
    }
    let sys = SystemDescription { protection_domains: pds, memory_regions: mrs, channels };
    Ok(sys)
}

/// Determinism: the outcome of a parse is a function of the document text
/// alone, so the same text always yields the same description or the same
/// error.
pub proof fn lemma_parse_deterministic(a: Seq<char>, b: Seq<char>)
    requires
        a == b,
    ensures
        spec_parse_doc(a) == spec_parse_doc(b),
{
}

/// Every channel endpoint stands inside the domain list: the indices are
/// positions in `pds`, never dangling references.
pub open spec fn sys_channels_wf(sys: SysV) -> bool {
    forall|k: int|
        0 <= k < sys.chs.len() ==> (#[trigger] sys.chs[k]).pd_a < sys.pds.len()
            && sys.chs[k].pd_b < sys.pds.len()
}

proof fn lemma_parse_items_channels_wf(children: Seq<XmlNode>, acc: SysV)
    requires
        spec_parse_items(children, acc) is Ok,
        sys_channels_wf(acc),
    ensures
        sys_channels_wf(spec_parse_items(children, acc)->Ok_0),
        (spec_parse_items(children, acc)->Ok_0).pds.len() >= acc.pds.len(),
    decreases children.len(),
{
    if children.len() > 0 {
        let rest = children.drop_first();
        match children[0] {
            XmlNode::Other => {
                lemma_parse_items_channels_wf(rest, acc);
            },
            XmlNode::Element(c) => {
                if c.tag@ == "protection_domain"@ {
                    let pd = spec_pd_from(c)->Ok_0;
                    let acc2 = SysV { pds: acc.pds.push(pd), mrs: acc.mrs, chs: acc.chs };
                    lemma_parse_items_channels_wf(rest, acc2);
                } else {
                    let ch = spec_channel_from(c, acc.pds)->Ok_0;
                    lemma_channel_in_range(c, acc.pds);
                    let acc2 = SysV { pds: acc.pds, mrs: acc.mrs, chs: acc.chs.push(ch) };
                    lemma_parse_items_channels_wf(rest, acc2);
                }
            },
        }
    }
}

/// In every accepted description each channel's two endpoint indices
/// stand inside the domain list.
pub proof fn lemma_parse_channels_in_range(text: Seq<char>)
    requires
        spec_parse_doc(text) is Ok,
    ensures
        sys_channels_wf(spec_parse_doc(text)->Ok_0),
{
    let root = xml_tree_of(text)->Some_0;
    lemma_parse_items_channels_wf(root.children@, empty_sys());
}

/// The protection domains a document declares, in document order, taking
/// no notice of any other element between them.
pub open spec fn spec_declared_pds(children: Seq<XmlNode>) -> Seq<PdV>
    decreases children.len(),
{
    if children.len() == 0 {
        Seq::empty()
    } else {
        let rest = spec_declared_pds(children.drop_first());
        match children[0] {
            XmlNode::Element(c) => if c.tag@ == "protection_domain"@ {
                match spec_pd_from(c) {
                    Ok(pd) => seq![pd] + rest,
                    Err(_) => rest,
                }
            } else {
                rest
            },
            XmlNode::Other => rest,
        }
    }
}

/// Index stability: in an accepted document the domain list is exactly
/// the `protection_domain` elements in document order, so a domain's
/// position -- the index channel endpoints resolve to -- never depends on
/// how many channels were declared before it.
pub proof fn lemma_index_stability(children: Seq<XmlNode>, acc: SysV)
    requires
        spec_parse_items(children, acc) is Ok,
    ensures
        (spec_parse_items(children, acc)->Ok_0).pds == acc.pds + spec_declared_pds(children),
    decreases children.len(),
{
    if children.len() == 0 {
        assert(acc.pds + Seq::<PdV>::empty() =~= acc.pds);
    } else {
        let rest = children.drop_first();
        match children[0] {
            XmlNode::Other => {
                lemma_index_stability(rest, acc);
            },
            XmlNode::Element(c) => {
                if c.tag@ == "protection_domain"@ {
                    let pd = spec_pd_from(c)->Ok_0;
                    let acc2 = SysV { pds: acc.pds.push(pd), mrs: acc.mrs, chs: acc.chs };
                    lemma_index_stability(rest, acc2);
                    assert(acc.pds.push(pd) + spec_declared_pds(rest) =~= acc.pds + (seq![pd]
                        + spec_declared_pds(rest)));
                } else if c.tag@ == "channel"@ {
                    let ch = spec_channel_from(c, acc.pds)->Ok_0;
                    let acc2 = SysV { pds: acc.pds, mrs: acc.mrs, chs: acc.chs.push(ch) };
                    lemma_index_stability(rest, acc2);
                }
            },
        }
    }
}

} // verus!
