//! Parser and validator for a declarative description of a statically
//! partitioned system: protection domains, memory regions, and the
//! channels that link domains, read from a small XML dialect.

mod builders;
mod model;
mod parser;
mod text;
mod xml;

pub use builders::check_attributes;
pub use builders::checked_lookup;
pub use builders::opt_bool;
pub use builders::opt_ranged;
pub use builders::parse_ranged;
pub use builders::pd_allowed;
pub use builders::spec_attr_allowed;
pub use builders::spec_channel_from;
pub use builders::spec_check_attrs;
pub use builders::spec_end_from;
pub use builders::spec_irq_from;
pub use builders::spec_mr_from;
pub use builders::spec_pd_from;
pub use builders::spec_ranged;
pub use builders::spec_required;
pub use builders::spec_resolve;
pub use builders::lemma_channel_in_range;
pub use builders::lemma_resolve_in_range;
pub use parser::badge_used;
pub use parser::lemma_index_stability;
pub use parser::lemma_parse_channels_in_range;
pub use parser::lemma_parse_deterministic;
pub use parser::sys_channels_wf;
pub use parser::parse;
pub use parser::spec_declared_pds;
pub use parser::spec_parse_doc;
pub use parser::spec_parse_items;
pub use model::mrs_view;
pub use model::pds_view;
pub use xml::xml_tree_of;

pub use model::ArmIrqTrigger;
pub use model::Channel;
pub use model::ErrV;
pub use model::KernelArch;
pub use model::KernelConfig;
pub use model::MrV;
pub use model::ParseError;
pub use model::PdV;
pub use model::PlatformDescription;
pub use model::ProtectionDomain;
pub use model::SysIrq;
pub use model::SysMap;
pub use model::SysMapPerms;
pub use model::SysMemoryRegion;
pub use model::SysSetVar;
pub use model::SysV;
pub use model::SystemDescription;
pub use model::page_sizes_wf;

pub use text::parse_u64;
pub use text::spec_parse_u64;
pub use xml::XmlAttr;
pub use xml::XmlElement;
pub use xml::XmlNode;
pub use xml::spec_find_attr;
