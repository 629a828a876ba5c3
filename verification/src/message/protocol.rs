use vstd::prelude::*;

verus! {

/// Provides the protocol that is used by default.
#[derive(Debug, Clone, Copy)]
pub struct ProtocolExtractor;

/// Knows the protocol that is set for a module.
pub trait ProtocolHolder {
    /// `None` means a crate's name is used.
    fn protocol(&self) -> Option<&'static str>;
}

/// The holder of modules that don't override the protocol.
#[derive(Debug, Clone, Copy)]
pub struct DefaultProtocolHolder;

impl ProtocolHolder for DefaultProtocolHolder {
    fn protocol(&self) -> (res: Option<&'static str>)
        ensures
            res is None,
    {
        None
    }
}

impl DefaultProtocolHolder {
    pub fn holder(&self) -> (res: DefaultProtocolHolder)
        ensures
            res == *self,
    {
        DefaultProtocolHolder
    }
}

impl ProtocolExtractor {
    /// The holder that is used if the module has no its own one.
    pub fn holder(&self) -> (res: DefaultProtocolHolder)
        ensures
            res == DefaultProtocolHolder,
    {
        DefaultProtocolHolder.holder()
    }
}

/// The name of a protocol: the overridden one, otherwise the package name.
/// If there is neither, a protocol must be set explicitly.
pub fn extract_protocol_name<'a>(proto_override: Option<&'a str>, pkg_name: Option<&'a str>) -> (res:
    Option<&'a str>)
    ensures
        res == (if proto_override is Some {
            proto_override
        } else {
            pkg_name
        }),
{
    if let Some(name) = proto_override {
        return Some(name);
    }

    if let Some(name) = pkg_name {
        return Some(name);
    }

    None
}

// === Laws ===

/// The overridden name is preferred, and the package name is used only without it.
/// By default, nothing is overridden.
pub proof fn overridden_protocol_is_preferred<'a>(
    name: &'a str,
    other: Option<&'a str>,
    a: Option<&'a str>,
    b: Option<&'a str>,
    holder: DefaultProtocolHolder,
    c: Option<&'static str>,
)
    requires
        call_ensures(extract_protocol_name, (Some(name), other), a),
        call_ensures(extract_protocol_name, (None, other), b),
        call_ensures(ProtocolExtractor::holder, (&ProtocolExtractor,), holder),
        call_ensures(<DefaultProtocolHolder as ProtocolHolder>::protocol, (&holder,), c),
    ensures
        a == Some(name),
        b == other,
        c is None,
{
}

} // verus!
