//! The value model and the abstract syntax tree of the language: the closed
//! set of literal kinds a property can hold, properties, and instance trees.

use vstd::prelude::*;
use crate::text::str_eq;

verus! {

/// Mathematical model of a decimal number literal.
pub struct DecimalView {
    pub negative: bool,
    pub int_digits: Seq<u8>,
    pub frac_digits: Seq<u8>,
}

impl DecimalView {
    /// A decimal literal has at least one integer digit, and every digit is
    /// a value below ten. An empty `frac_digits` means the literal has no
    /// fractional part at all.
    pub open spec fn wf(self) -> bool {
        &&& self.int_digits.len() >= 1
        &&& forall|i: int| 0 <= i < self.int_digits.len() ==> self.int_digits[i] < 10
        &&& forall|i: int| 0 <= i < self.frac_digits.len() ==> self.frac_digits[i] < 10
    }
}

/// A number literal, kept exactly as written: an optional sign, the digits
/// before the decimal point, and the digits after it (empty when the literal
/// has no point).
#[derive(Debug, PartialEq, Eq)]
pub struct Decimal {
    pub negative: bool,
    pub int_digits: Vec<u8>,
    pub frac_digits: Vec<u8>,
}

impl View for Decimal {
    type V = DecimalView;

    open spec fn view(&self) -> DecimalView {
        DecimalView {
            negative: self.negative,
            int_digits: self.int_digits@,
            frac_digits: self.frac_digits@,
        }
    }
}

/// Mathematical model of a literal value.
pub enum ValueView {
    StringLiteral(Seq<char>),
    Number(DecimalView),
    Boolean(bool),
    Color(u8, u8, u8),
    UDim2(DecimalView, DecimalView, DecimalView, DecimalView),
    EnumMember(Seq<char>),
}

/// A literal value of the language. A value's kind is fixed once constructed;
/// the channels of a `Color` always lie in `0..=255` by their type.
#[derive(Debug, PartialEq, Eq)]
pub enum Value {
    StringLiteral(String),
    Number(Decimal),
    Boolean(bool),
    Color(u8, u8, u8),
    UDim2(Decimal, Decimal, Decimal, Decimal),
    EnumMember(String),
}

impl View for Value {
    type V = ValueView;

    open spec fn view(&self) -> ValueView {
        match self {
            Value::StringLiteral(s) => ValueView::StringLiteral(s@),
            Value::Number(d) => ValueView::Number(d@),
            Value::Boolean(b) => ValueView::Boolean(*b),
            Value::Color(r, g, b) => ValueView::Color(*r, *g, *b),
            Value::UDim2(a, b, c, d) => ValueView::UDim2(a@, b@, c@, d@),
            Value::EnumMember(s) => ValueView::EnumMember(s@),
        }
    }
}

impl Value {
    /// The name of this value's kind.
    pub fn get_type(&self) -> (r: &'static str)
        ensures
            r@ == match self@ {
                ValueView::StringLiteral(_) => "String"@,
                ValueView::Number(_) => "Number"@,
                ValueView::Boolean(_) => "Boolean"@,
                ValueView::Color(_, _, _) => "Color"@,
                ValueView::UDim2(_, _, _, _) => "UDim2"@,
                ValueView::EnumMember(_) => "EnumMember"@,
            },
    {
        match self {
            Value::StringLiteral(_) => "String",
            Value::Number(_) => "Number",
            Value::Boolean(_) => "Boolean",
            Value::Color(_, _, _) => "Color",
            Value::UDim2(_, _, _, _) => "UDim2",
            Value::EnumMember(_) => "EnumMember",
        }
    }

    /// The text of a string literal value.
    pub fn as_str(&self) -> (r: &str)
        requires
            self@ is StringLiteral,
        ensures
            r@ == self@->StringLiteral_0,
    {
        match self {
            Value::StringLiteral(val) => val.as_str(),
            _ => "",
        }
    }
}

/// Mathematical model of one property: a name bound to a value.
pub struct RgPropertyView {
    pub name: Seq<char>,
    pub value: ValueView,
}

/// One name/value assignment attached to an instance.
#[derive(Debug, PartialEq, Eq)]
pub struct RgProperty {
    pub name: String,
    pub value: Value,
}

impl View for RgProperty {
    type V = RgPropertyView;

    open spec fn view(&self) -> RgPropertyView {
        RgPropertyView { name: self.name@, value: self.value@ }
    }
}

impl RgProperty {
    pub fn new(name: String, value: Value) -> (r: RgProperty)
        ensures
            r@ == (RgPropertyView { name: name@, value: value@ }),
    {
        RgProperty { name, value }
    }

    pub fn new_string(name: String, value: String) -> (r: RgProperty)
        ensures
            r@ == (RgPropertyView { name: name@, value: ValueView::StringLiteral(value@) }),
    {
        RgProperty { name, value: Value::StringLiteral(value) }
    }

    pub fn get_name(&self) -> (r: &str)
        ensures
            r@ == self@.name,
    {
        self.name.as_str()
    }

    pub fn get_value(&self) -> (r: &Value)
        ensures
            r@ == self@.value,
    {
        &self.value
    }
}

/// Mathematical model of an instance: its properties and children, in order.
pub struct RgInstanceView {
    pub properties: Seq<RgPropertyView>,
    pub children: Seq<RgInstanceView>,
}

/// A node of the parsed document tree: one typed object with an ordered list
/// of properties and an ordered list of nested instances.
#[derive(Debug, PartialEq, Eq)]
pub struct RgInstance {
    pub _properties: Vec<RgProperty>,
    pub _children: Vec<RgInstance>,
}

/// The views of a sequence of instances, in order.
pub open spec fn spec_children_views(cs: Seq<RgInstance>) -> Seq<RgInstanceView>
    decreases cs,
{
    if cs.len() == 0 {
        Seq::empty()
    } else {
        spec_children_views(cs.subrange(0, cs.len() - 1)).push(cs[cs.len() - 1]@)
    }
}

/// `spec_children_views` maps each instance to its view, index by index.
pub broadcast proof fn lemma_children_views(cs: Seq<RgInstance>)
    ensures
        (#[trigger] spec_children_views(cs)).len() == cs.len(),
        forall|i: int| 0 <= i < cs.len() ==> spec_children_views(cs)[i] == cs[i]@,
    decreases cs.len(),
{
    if cs.len() > 0 {
        let head = cs.subrange(0, cs.len() - 1);
        lemma_children_views(head);
        assert(spec_children_views(cs) == spec_children_views(head).push(cs[cs.len() - 1]@));
        assert forall|i: int| 0 <= i < cs.len() implies spec_children_views(cs)[i] == cs[i]@ by {
            if i < cs.len() - 1 {
                assert(spec_children_views(cs)[i] == spec_children_views(head)[i]);
                assert(head[i] == cs[i]);
            } else {
                assert(spec_children_views(cs)[i] == cs[cs.len() - 1]@);
            }
        }
    }
}

impl View for RgInstance {
    type V = RgInstanceView;

    open spec fn view(&self) -> RgInstanceView
        decreases self,
    {
        RgInstanceView {
            properties: Seq::new(self._properties@.len(), |i: int| self._properties@[i]@),
            children: spec_children_views(self._children@),
        }
    }
}

/// The first value bound to `name` among `props`, if any.
pub open spec fn spec_prop_value(props: Seq<RgPropertyView>, name: Seq<char>) -> Option<ValueView>
    decreases props.len(),
{
    if props.len() == 0 {
        None
    } else if props[0].name == name {
        Some(props[0].value)
    } else {
        spec_prop_value(props.drop_first(), name)
    }
}

impl RgInstance {
    pub fn new(_properties: Vec<RgProperty>, _children: Vec<RgInstance>) -> (r: RgInstance)
        ensures
            r@.properties.len() == _properties@.len(),
            forall|i: int| 0 <= i < _properties@.len() ==> r@.properties[i] == _properties@[i]@,
            r@.children.len() == _children@.len(),
            forall|i: int| 0 <= i < _children@.len() ==> r@.children[i] == _children@[i]@,
    {
        proof {
            lemma_children_views(_children@);
        }
        RgInstance { _properties, _children }
    }

    pub fn children(&self) -> (r: &Vec<RgInstance>)
        ensures
            r@.len() == self@.children.len(),
            forall|i: int| 0 <= i < r@.len() ==> r@[i]@ == self@.children[i],
    {
        proof {
            lemma_children_views(self._children@);
        }
        &self._children
    }

    pub fn properties(&self) -> (r: &Vec<RgProperty>)
        ensures
            r@.len() == self@.properties.len(),
            forall|i: int| 0 <= i < r@.len() ==> r@[i]@ == self@.properties[i],
    {
        &self._properties
    }

    /// The value of the first property of this instance named `name`, if any.
    pub fn get_prop_value(&self, name: &str) -> (r: Option<&Value>)
        ensures
            match r {
                Some(v) => spec_prop_value(self@.properties, name@) == Some(v@),
                None => spec_prop_value(self@.properties, name@) is None,
            },
    {
        let props = &self._properties;
        proof {
            assert(self@.properties.skip(0) =~= self@.properties);
        }
        let mut i: usize = 0;
        while i < props.len()
            invariant
                0 <= i <= props@.len(),
                self@.properties.len() == props@.len(),
                forall|j: int| 0 <= j < props@.len() ==> self@.properties[j] == props@[j]@,
                spec_prop_value(self@.properties, name@)
                    == spec_prop_value(self@.properties.skip(i as int), name@),
            decreases props@.len() - i,
        {
            proof {
                assert(self@.properties.skip(i as int)[0] == self@.properties[i as int]);
                assert(self@.properties.skip(i as int).drop_first()
                    =~= self@.properties.skip(i + 1));
            }
            if str_eq(props[i].get_name(), name) {
                return Some(props[i].get_value());
            }
            i += 1;
        }
        proof {
            assert(self@.properties.skip(i as int).len() == 0);
        }
        None
    }
}

/// A parsed node: either a single property assignment or a whole instance.
pub enum RgNodeView {
    Property(RgPropertyView),
    Instance(RgInstanceView),
}

#[derive(Debug, PartialEq, Eq)]
pub enum RgNode {
    Property(RgProperty),
    Instance(RgInstance),
}

impl View for RgNode {
    type V = RgNodeView;

    open spec fn view(&self) -> RgNodeView {
        match self {
            RgNode::Property(p) => RgNodeView::Property(p@),
            RgNode::Instance(i) => RgNodeView::Instance(i@),
        }
    }
}

} // verus!
