//! The semantics checker: walks a parsed instance tree against a schema and
//! returns the first violation in document order (the node itself, then its
//! properties in declared order, then its children in declared order).

use vstd::prelude::*;
use crate::api::{
    InstanceView, RobloxApi, RobloxApiView, spec_can_take_value, spec_find_class,
    spec_resolve_property,
};
use crate::parser::{spec_parse_body, spec_parse_document, spec_parse_instance_at};
use crate::text::str_eq;
use vstd::string::{StringExecFns, StrSliceExecFns};
use crate::values::{
    lemma_children_views, spec_prop_value, RgInstance, RgInstanceView, Value, ValueView,
};

verus! {

/// Mathematical model of a semantic error.
pub enum SemanticErrorView {
    UnknownClass { class: Seq<char> },
    NotCreatable { class: Seq<char> },
    UnknownProperty { class: Seq<char>, instance_name: Option<Seq<char>>, property: Seq<char> },
    TypeMismatch { property: Seq<char> },
    ReadonlyProperty { property: Seq<char> },
}

/// The first violation found by a checking pass, with the names needed to
/// report it: an unknown class, a class that cannot be created, a property
/// no ancestor declares, a value of the wrong kind, or a write to a
/// readonly property.
#[derive(Debug, PartialEq, Eq)]
pub enum SemanticError {
    UnknownClass { class: String },
    NotCreatable { class: String },
    UnknownProperty { class: String, instance_name: Option<String>, property: String },
    TypeMismatch { property: String },
    ReadonlyProperty { property: String },
}

impl View for SemanticError {
    type V = SemanticErrorView;

    open spec fn view(&self) -> SemanticErrorView {
        match self {
            SemanticError::UnknownClass { class } => SemanticErrorView::UnknownClass {
                class: class@,
            },
            SemanticError::NotCreatable { class } => SemanticErrorView::NotCreatable {
                class: class@,
            },
            SemanticError::UnknownProperty { class, instance_name, property } => {
                SemanticErrorView::UnknownProperty {
                    class: class@,
                    instance_name: match instance_name {
                        Some(n) => Some(n@),
                        None => None,
                    },
                    property: property@,
                }
            },
            SemanticError::TypeMismatch { property } => SemanticErrorView::TypeMismatch {
                property: property@,
            },
            SemanticError::ReadonlyProperty { property } => SemanticErrorView::ReadonlyProperty {
                property: property@,
            },
        }
    }
}

/// The text describing a semantic error: its kind and the class, property
/// and instance names involved.
pub open spec fn spec_describe(e: SemanticErrorView) -> Seq<char> {
    match e {
        SemanticErrorView::UnknownClass { class } => "Class "@ + class + " does not exist"@,
        SemanticErrorView::NotCreatable { class } => "Instance "@ + class
            + " cannot be created"@,
        SemanticErrorView::UnknownProperty { class, instance_name, property } => "Class "@ + class
            + " with name "@ + (match instance_name {
            Some(n) => n,
            None => Seq::empty(),
        }) + " does not have property "@ + property,
        SemanticErrorView::TypeMismatch { property } => "Property "@ + property
            + " cannot be set with this value"@,
        SemanticErrorView::ReadonlyProperty { property } => "The property "@ + property
            + " is readonly"@,
    }
}

impl SemanticError {
    /// A human-readable account of the violation, naming what it involves.
    pub fn describe(&self) -> (r: String)
        ensures
            r@ == spec_describe(self@),
    {
        match self {
            SemanticError::UnknownClass { class } => {
                let mut r = String::from_str("Class ");
                r.append(class.as_str());
                r.append(" does not exist");
                r
            },
            SemanticError::NotCreatable { class } => {
                let mut r = String::from_str("Instance ");
                r.append(class.as_str());
                r.append(" cannot be created");
                r
            },
            SemanticError::UnknownProperty { class, instance_name, property } => {
                let mut r = String::from_str("Class ");
                r.append(class.as_str());
                r.append(" with name ");
                match instance_name {
                    Some(n) => {
                        r.append(n.as_str());
                    },
                    None => {
                        proof {
                            assert(r@ + Seq::<char>::empty() =~= r@);
                        }
                    },
                }
                r.append(" does not have property ");
                r.append(property.as_str());
                r
            },
            SemanticError::TypeMismatch { property } => {
                let mut r = String::from_str("Property ");
                r.append(property.as_str());
                r.append(" cannot be set with this value");
                r
            },
            SemanticError::ReadonlyProperty { property } => {
                let mut r = String::from_str("The property ");
                r.append(property.as_str());
                r.append(" is readonly");
                r
            },
        }
    }
}

pub type SemanticsResult = Result<(), SemanticError>;

/// The class name an instance was parsed with: the text of its synthetic
/// `_ClassName` property.
pub open spec fn spec_class_name(inst: RgInstanceView) -> Option<Seq<char>> {
    match spec_prop_value(inst.properties, "_ClassName"@) {
        Some(ValueView::StringLiteral(t)) => Some(t),
        _ => None,
    }
}

/// The display name an instance was parsed with: the text of its synthetic
/// `Name` property, if that property is present and holds a string.
pub open spec fn spec_instance_name(inst: RgInstanceView) -> Option<Seq<char>> {
    match spec_prop_value(inst.properties, "Name"@) {
        Some(ValueView::StringLiteral(t)) => Some(t),
        _ => None,
    }
}

/// Every node of the tree carries a string-valued `_ClassName` property, as
/// every parsed instance does by construction.
pub open spec fn spec_instance_wf(inst: RgInstanceView) -> bool
    decreases inst,
{
    &&& spec_class_name(inst) is Some
    &&& forall|i: int| 0 <= i < inst.children.len() ==> spec_instance_wf(
        #[trigger] inst.children[i],
    )
}

/// The outcome of checking the properties of `inst` from index `i` on
/// against the resolved class `class`: the synthetic `_ClassName` property is
/// skipped; every other property must resolve through the superclass chain,
/// accept the assigned value, and not be readonly. The first violation wins.
pub open spec fn spec_check_properties(
    api: RobloxApiView,
    inst: RgInstanceView,
    class: InstanceView,
    i: int,
) -> Result<(), SemanticErrorView>
    decreases inst.properties.len() - i,
{
    if i < 0 || i >= inst.properties.len() {
        Ok(())
    } else {
        let p = inst.properties[i];
        if p.name == "_ClassName"@ {
            spec_check_properties(api, inst, class, i + 1)
        } else {
            match spec_resolve_property(api, class, p.name, api.instances.len()) {
                None => Err(SemanticErrorView::UnknownProperty {
                    class: class.name,
                    instance_name: spec_instance_name(inst),
                    property: p.name,
                }),
                Some(sp) => if !spec_can_take_value(api, sp.val_type, p.value) {
                    Err(SemanticErrorView::TypeMismatch { property: sp.name })
                } else if sp.tags.contains("readonly"@) {
                    Err(SemanticErrorView::ReadonlyProperty { property: sp.name })
                } else {
                    spec_check_properties(api, inst, class, i + 1)
                },
            }
        }
    }
}

/// The outcome of checking one instance node and everything below it:
/// its class must exist and be creatable, its properties must pass
/// `spec_check_properties`, and then each child is checked in order. The
/// first violation, in document order, is the result.
pub open spec fn spec_check_instance(api: RobloxApiView, inst: RgInstanceView) -> Result<
    (),
    SemanticErrorView,
>
    decreases inst, 1int, 0int,
{
    let cn = spec_class_name(inst)->Some_0;
    match spec_find_class(api.instances, cn) {
        None => Err(SemanticErrorView::UnknownClass { class: cn }),
        Some(class) => if class.tags.contains("notCreatable"@) {
            Err(SemanticErrorView::NotCreatable { class: class.name })
        } else {
            match spec_check_properties(api, inst, class, 0) {
                Err(e) => Err(e),
                Ok(u) => spec_check_instance_children(api, inst, 0),
            }
        },
    }
}

/// The outcome of checking the children of `inst` from index `i` on.
pub open spec fn spec_check_instance_children(
    api: RobloxApiView,
    inst: RgInstanceView,
    i: int,
) -> Result<(), SemanticErrorView>
    decreases inst, 0int, inst.children.len() - i,
{
    if i < 0 || i >= inst.children.len() {
        Ok(())
    } else {
        match spec_check_instance(api, inst.children[i]) {
            Err(e) => Err(e),
            Ok(u) => spec_check_instance_children(api, inst, i + 1),
        }
    }
}

/// A checker holds the schema it validates against.
pub struct SemanticsChecker {
    pub api: RobloxApi,
}

impl View for SemanticsChecker {
    type V = RobloxApiView;

    open spec fn view(&self) -> RobloxApiView {
        self.api@
    }
}

impl SemanticsChecker {
    pub fn new(api: RobloxApi) -> (r: SemanticsChecker)
        ensures
            r@ == api@,
    {
        SemanticsChecker { api }
    }

    /// Checks one instance tree against the schema, returning the first
    /// violation in document order, if any.
    pub fn check_instance(&self, inst: &RgInstance) -> (r: SemanticsResult)
        requires
            spec_instance_wf(inst@),
        ensures
            match r {
                Ok(u) => spec_check_instance(self@, inst@) is Ok,
                Err(e) => spec_check_instance(self@, inst@) == Err::<(), SemanticErrorView>(e@),
            },
        decreases *inst,
    {
        let class_name_val = match inst.get_prop_value("_ClassName") {
            Some(v) => v,
            None => {
                return Ok(());
            },
        };
        let is_string = matches!(class_name_val, Value::StringLiteral(_));
        if !is_string {
            return Ok(());
        }
        let class_name = class_name_val.as_str();
        let class = match self.api.get_instance(class_name) {
            None => {
                return Err(SemanticError::UnknownClass { class: class_name.to_owned() });
            },
            Some(c) => c,
        };
        if class.has_tag("notCreatable") {
            return Err(SemanticError::NotCreatable { class: class.get_name().to_owned() });
        }

        let props = inst.properties();
        let mut i: usize = 0;
        while i < props.len()
            invariant
                spec_instance_wf(inst@),
                0 <= i <= props@.len(),
                props@.len() == inst@.properties.len(),
                forall|j: int| 0 <= j < props@.len() ==> props@[j]@ == inst@.properties[j],
                spec_find_class(self@.instances, spec_class_name(inst@)->Some_0)
                    == Some(class@),
                !class@.tags.contains("notCreatable"@),
                spec_check_properties(self@, inst@, class@, 0)
                    == spec_check_properties(self@, inst@, class@, i as int),
            decreases props@.len() - i,
        {
            let p = &props[i];
            if !str_eq(p.get_name(), "_ClassName") {
                match self.api.get_property(class, p.get_name()) {
                    None => {
                        let instance_name = match inst.get_prop_value("Name") {
                            Some(v) => match v {
                                Value::StringLiteral(s) => Some(s.clone()),
                                _ => None,
                            },
                            None => None,
                        };
                        return Err(SemanticError::UnknownProperty {
                            class: class.get_name().to_owned(),
                            instance_name,
                            property: p.get_name().to_owned(),
                        });
                    },
                    Some(sp) => {
                        if !sp.can_take_value(&self.api, p.get_value()) {
                            return Err(SemanticError::TypeMismatch {
                                property: sp.get_name().to_owned(),
                            });
                        }
                        if sp.has_tag("readonly") {
                            return Err(SemanticError::ReadonlyProperty {
                                property: sp.get_name().to_owned(),
                            });
                        }
                    },
                }
            }
            i += 1;
        }

        let children = &inst._children;
        proof {
            lemma_children_views(inst._children@);
            assert(spec_check_properties(self@, inst@, class@, i as int) is Ok);
        }
        let mut j: usize = 0;
        while j < children.len()
            invariant
                spec_instance_wf(inst@),
                0 <= j <= children@.len(),
                children@ == inst._children@,
                children@.len() == inst@.children.len(),
                forall|k: int| 0 <= k < children@.len() ==> children@[k]@ == inst@.children[k],
                spec_check_instance(self@, inst@) == spec_check_instance_children(
                    self@,
                    inst@,
                    j as int,
                ),
            decreases children@.len() - j,
        {
            let child = &children[j];
            proof {
                lemma_children_views(inst._children@);
                assert(decreases_to!(*inst => inst._children@[j as int]));
                assert(*child == inst._children@[j as int]);
                assert(decreases_to!(*inst => *child));
            }
            match self.check_instance(child) {
                Err(e) => {
                    return Err(e);
                },
                Ok(u) => {},
            }
            j += 1;
        }
        Ok(())
    }
}

/// Whether the `k`-th property of `inst` passes checking against `class`:
/// it is the synthetic `_ClassName`, or it resolves through the superclass
/// chain to a declaration that accepts its value and is not readonly.
pub open spec fn spec_property_ok_at(
    api: RobloxApiView,
    inst: RgInstanceView,
    class: InstanceView,
    k: int,
) -> bool {
    let p = inst.properties[k];
    ||| p.name == "_ClassName"@
    ||| match spec_resolve_property(api, class, p.name, api.instances.len()) {
        Some(sp) => spec_can_take_value(api, sp.val_type, p.value) && !sp.tags.contains(
            "readonly"@,
        ),
        None => false,
    }
}

proof fn lemma_check_properties_reaches(
    api: RobloxApiView,
    inst: RgInstanceView,
    class: InstanceView,
    m: int,
    i: int,
)
    requires
        0 <= m <= i < inst.properties.len(),
        forall|k: int| m <= k < i ==> spec_property_ok_at(api, inst, class, k),
        inst.properties[i].name != "_ClassName"@,
        spec_resolve_property(api, class, inst.properties[i].name, api.instances.len()) is None,
    ensures
        spec_check_properties(api, inst, class, m) == Err::<(), SemanticErrorView>(
            SemanticErrorView::UnknownProperty {
                class: class.name,
                instance_name: spec_instance_name(inst),
                property: inst.properties[i].name,
            },
        ),
    decreases i - m,
{
    if m < i {
        assert(spec_property_ok_at(api, inst, class, m));
        lemma_check_properties_reaches(api, inst, class, m + 1, i);
    }
}

/// Fail-fast: when one instance holds both a property that no ancestor of
/// its class declares (at index `i`) and a later property whose value has
/// the wrong kind (at index `j`), checking reports the earlier violation,
/// the unknown property, and nothing of the later one.
pub proof fn lemma_fail_fast_first_error(
    api: RobloxApiView,
    inst: RgInstanceView,
    class: InstanceView,
    i: int,
    j: int,
)
    requires
        spec_class_name(inst) is Some,
        spec_find_class(api.instances, spec_class_name(inst).unwrap()) == Some(class),
        !class.tags.contains("notCreatable"@),
        0 <= i < j < inst.properties.len(),
        forall|k: int| 0 <= k < i ==> spec_property_ok_at(api, inst, class, k),
        inst.properties[i].name != "_ClassName"@,
        spec_resolve_property(api, class, inst.properties[i].name, api.instances.len()) is None,
        inst.properties[j].name != "_ClassName"@,
        match spec_resolve_property(api, class, inst.properties[j].name, api.instances.len()) {
            Some(sp) => !spec_can_take_value(api, sp.val_type, inst.properties[j].value),
            None => false,
        },
    ensures
        spec_check_instance(api, inst) == Err::<(), SemanticErrorView>(
            SemanticErrorView::UnknownProperty {
                class: class.name,
                instance_name: spec_instance_name(inst),
                property: inst.properties[i].name,
            },
        ),
{
    lemma_check_properties_reaches(api, inst, class, 0, i);
}

/// Every instance the grammar yields is well-formed: its first property is
/// the synthetic string-valued `_ClassName`, and the same holds of every
/// instance below it.
pub proof fn lemma_parsed_instance_wf(s: Seq<char>, i: int)
    ensures
        match spec_parse_instance_at(s, i) {
            Some(t) => spec_instance_wf(t.0),
            None => true,
        },
    decreases s.len() - i, 0int,
{
    if spec_parse_instance_at(s, i) is Some {
        let e = crate::parser::spec_ident_end(s, i);
        assert(e != i);
        let j = crate::parser::spec_skip_ws(s, e);
        let hdr: Option<(Option<Seq<char>>, int)> = if 0 <= j < s.len() && s[j] == '"' {
            match crate::parser::spec_parse_string_at(s, j) {
                None => None,
                Some(t) => Some((Some(t.0), crate::parser::spec_skip_ws(s, t.1))),
            }
        } else {
            Some((None, j))
        };
        match hdr {
            None => {
                assert(false);
            },
            Some(h) => {
                let j2 = h.1;
                let k = crate::parser::spec_next_pos(
                    s,
                    i + 1,
                    crate::parser::spec_skip_ws(s, j2 + 1),
                );
                lemma_parsed_body_wf(s, k);
                let t = spec_parse_instance_at(s, i).unwrap();
                assert(t.0.properties[0].name == "_ClassName"@);
                assert(t.0.properties[0].value is StringLiteral);
                assert(spec_class_name(t.0) is Some);
            },
        }
    }
}

/// Every child instance an instance body yields is well-formed.
pub proof fn lemma_parsed_body_wf(s: Seq<char>, k: int)
    ensures
        match spec_parse_body(s, k) {
            Some(b) => forall|c: int| 0 <= c < b.1.len() ==> spec_instance_wf(
                #[trigger] b.1[c],
            ),
            None => true,
        },
    decreases s.len() - k, 1int,
{
    if spec_parse_body(s, k) is Some {
        assert(0 <= k < s.len());
        if s[k] == '}' {
        } else {
            let e = crate::parser::spec_ident_end(s, k);
            assert(e != k);
            let m = crate::parser::spec_skip_ws(s, e);
            if 0 <= m < s.len() && s[m] == ':' {
                let t = crate::parser::spec_parse_property_at(s, k).unwrap();
                let k2 = crate::parser::spec_next_pos(
                    s,
                    k + 1,
                    crate::parser::spec_skip_ws(s, t.1),
                );
                lemma_parsed_body_wf(s, k2);
            } else {
                let t = spec_parse_instance_at(s, k).unwrap();
                lemma_parsed_instance_wf(s, k);
                let k2 = crate::parser::spec_next_pos(
                    s,
                    k + 1,
                    crate::parser::spec_skip_ws(s, t.1),
                );
                lemma_parsed_body_wf(s, k2);
                let b = spec_parse_body(s, k).unwrap();
                let brest = spec_parse_body(s, k2).unwrap();
                assert forall|c: int| 0 <= c < b.1.len() implies spec_instance_wf(
                    #[trigger] b.1[c],
                ) by {
                    if c == 0 {
                        assert(b.1[0] == t.0);
                    } else {
                        assert(b.1[c] == brest.1[c - 1]);
                    }
                }
            }
        }
    }
}

/// A successfully parsed document is a well-formed instance tree.
pub proof fn lemma_parsed_document_wf(s: Seq<char>)
    ensures
        match spec_parse_document(s) {
            Some(iv) => spec_instance_wf(iv),
            None => true,
        },
{
    lemma_parsed_instance_wf(s, crate::parser::spec_skip_ws(s, 0));
}

} // verus!

