use vstd::prelude::*;

verus! {

/// How a value introduces itself to a serializer.
#[derive(Debug)]
pub enum Introduction {
    /// A struct of any form.
    Struct(&'static str),
    /// A variant of an enum.
    Variant(&'static str, &'static str),
    /// `Some` of a value.
    Present(Box<Introduction>),
    /// Something without a name: a number, a string, a sequence etc.
    Nameless,
    /// The value refuses to be serialized.
    Refusal(String),
}

/// What serialization ends with.
#[derive(Debug)]
pub enum Outcome {
    Done,
    Inapplicable,
    Error(String),
}

impl Introduction {
    /// The value inside all `Some`s.
    pub open spec fn innermost(self) -> Introduction
        decreases self,
    {
        match self {
            Introduction::Present(value) => value.innermost(),
            _ => self,
        }
    }

    /// The name of the value, if any.
    pub open spec fn name(self) -> Option<Seq<char>> {
        match self.innermost() {
            Introduction::Struct(name) => Some(name@),
            Introduction::Variant(name, variant) => Some(name@ + "::"@ + variant@),
            _ => None,
        }
    }
}

/// Collects the name of a value.
#[derive(Debug)]
pub struct NameExtractor {
    pub name: String,
}

impl NameExtractor {
    fn struct_name(&mut self, name: &str)
        ensures
            final(self).name@ == old(self).name@ + name@,
    {
        self.name.append(name);
    }

    fn variant_name(&mut self, enum_name: &str, variant_name: &str)
        ensures
            final(self).name@ == old(self).name@ + (enum_name@ + "::"@ + variant_name@),
    {
        self.name.append(enum_name);
        self.name.append("::");
        self.name.append(variant_name);
        assert(self.name@ =~= old(self).name@ + (enum_name@ + "::"@ + variant_name@));
    }

    fn serialize(&mut self, value: &Introduction) -> (outcome: Outcome)
        ensures
            match value.name() {
                Some(name) => {
                    &&& outcome is Done
                    &&& final(self).name@ == old(self).name@ + name
                },
                None => {
                    &&& final(self).name@ == old(self).name@
                    &&& match value.innermost() {
                        Introduction::Refusal(err) => outcome matches Outcome::Error(text) && text@
                            == err@,
                        _ => outcome is Inapplicable,
                    }
                },
            },
        decreases value,
    {
        match value {
            Introduction::Struct(name) => {
                self.struct_name(*name);
                Outcome::Done
            },
            Introduction::Variant(name, variant) => {
                self.variant_name(*name, *variant);
                Outcome::Done
            },
            Introduction::Present(value) => self.serialize(value),
            Introduction::Nameless => Outcome::Inapplicable,
            Introduction::Refusal(err) => Outcome::Error(err.clone()),
        }
    }
}

/// Extract a name from the provided value.
///
/// Returns
/// * `Ok(true)` if the name is extracted successfully.
/// * `Ok(false)` if the name cannot be extracted.
/// * `Err(err)` if a custom error occurs.
pub fn extract_name_into(s: &mut String, value: &Introduction) -> (res: Result<bool, String>)
    ensures
        match value.name() {
            Some(name) => {
                &&& res == Ok::<bool, String>(true)
                &&& final(s)@ == old(s)@ + name
            },
            None => {
                &&& final(s)@ == old(s)@
                &&& match value.innermost() {
                    Introduction::Refusal(err) => res matches Err(text) && text@ == err@,
                    _ => res == Ok::<bool, String>(false),
                }
            },
        },
{
    let mut extractor = NameExtractor { name: s.clone() };
    let outcome = extractor.serialize(value);
    *s = extractor.name;
    match outcome {
        Outcome::Done => Ok(true),
        Outcome::Inapplicable => Ok(false),
        Outcome::Error(err) => Err(err),
    }
}

// === Laws ===

/// What is extracted from values of each kind.
pub proof fn names_are_extracted(
    s: &mut String,
    value: Introduction,
    res: Result<bool, String>,
)
    requires
        call_ensures(extract_name_into, (s, &value), res),
    ensures
        value matches Introduction::Struct(name) ==> {
            &&& res == Ok::<bool, String>(true)
            &&& final(s)@ == old(s)@ + name@
        },
        value matches Introduction::Variant(name, variant) ==> {
            &&& res == Ok::<bool, String>(true)
            &&& final(s)@ == old(s)@ + name@ + seq![':', ':'] + variant@
        },
        value is Nameless ==> res == Ok::<bool, String>(false) && final(s)@ == old(s)@,
        value matches Introduction::Refusal(err) ==> {
            &&& res matches Err(text) && text@ == err@
            &&& final(s)@ == old(s)@
        },
{
    reveal_strlit("::");
    reveal_with_fuel(Introduction::innermost, 2);
    assert("::"@ =~= seq![':', ':']);
    if let Introduction::Variant(name, variant) = value {
        assert(final(s)@ =~= old(s)@ + name@ + seq![':', ':'] + variant@);
    }
}

/// A present value has the name of the value itself.
pub proof fn presence_is_transparent(
    s: &mut String,
    t: &mut String,
    value: Box<Introduction>,
    a: Result<bool, String>,
    b: Result<bool, String>,
)
    requires
        old(s)@ == old(t)@,
        call_ensures(extract_name_into, (s, &*value), a),
        call_ensures(extract_name_into, (t, &Introduction::Present(value)), b),
    ensures
        final(s)@ == final(t)@,
        a is Ok <==> b is Ok,
        a is Ok ==> a->Ok_0 == b->Ok_0,
        a is Err ==> a->Err_0@ == b->Err_0@,
{
    assert(Introduction::Present(value).innermost() == value.innermost());
}

} // verus!
