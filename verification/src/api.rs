//! The schema model: classes (with tags, an optional superclass and declared
//! properties), enums (with member sets), and the schema table itself with
//! inheritance-aware property resolution.

use vstd::prelude::*;
use crate::text::str_eq;
use crate::values::{Value, ValueView};

verus! {

/// The kind of value a schema property accepts: one of the concrete literal
/// kinds, or a reference to a named schema enum.
#[derive(Debug, PartialEq, Eq)]
pub enum PropertyType {
    String,
    Number,
    Boolean,
    Color,
    UDim2,
    Other(String),
}

/// Mathematical model of a property type.
pub enum PropertyTypeView {
    String,
    Number,
    Boolean,
    Color,
    UDim2,
    Other(Seq<char>),
}

impl View for PropertyType {
    type V = PropertyTypeView;

    open spec fn view(&self) -> PropertyTypeView {
        match self {
            PropertyType::String => PropertyTypeView::String,
            PropertyType::Number => PropertyTypeView::Number,
            PropertyType::Boolean => PropertyTypeView::Boolean,
            PropertyType::Color => PropertyTypeView::Color,
            PropertyType::UDim2 => PropertyTypeView::UDim2,
            PropertyType::Other(name) => PropertyTypeView::Other(name@),
        }
    }
}

/// The set of tag texts held by a tag list.
pub open spec fn spec_tag_set(tags: Seq<String>) -> Set<Seq<char>> {
    Set::new(|t: Seq<char>| exists|i: int| 0 <= i < tags.len() && tags[i]@ == t)
}

/// Appending one text to a tag list adds exactly that text to its tag set.
proof fn lemma_tag_set_push(tags: Seq<String>, m: String)
    ensures
        spec_tag_set(tags.push(m)) =~= spec_tag_set(tags).insert(m@),
{
    assert forall|t: Seq<char>| spec_tag_set(tags.push(m)).contains(t)
        implies spec_tag_set(tags).insert(m@).contains(t) by {
        let i = choose|i: int| 0 <= i < tags.push(m).len() && tags.push(m)[i]@ == t;
        if i < tags.len() {
            assert(tags[i]@ == t);
        } else {
            assert(t == m@);
        }
    }
    assert forall|t: Seq<char>| spec_tag_set(tags).insert(m@).contains(t)
        implies spec_tag_set(tags.push(m)).contains(t) by {
        if t == m@ {
            assert(tags.push(m)[tags.len() as int]@ == t);
        } else {
            let i = choose|i: int| 0 <= i < tags.len() && tags[i]@ == t;
            assert(tags.push(m)[i]@ == t);
        }
    }
}

/// Whether a tag list holds the given tag text.
fn tags_contain(tags: &Vec<String>, tag: &str) -> (r: bool)
    ensures
        r == spec_tag_set(tags@).contains(tag@),
{
    let mut i: usize = 0;
    while i < tags.len()
        invariant
            0 <= i <= tags@.len(),
            forall|j: int| 0 <= j < i ==> tags@[j]@ != tag@,
        decreases tags@.len() - i,
    {
        if str_eq(tags[i].as_str(), tag) {
            proof {
                assert(tags@[i as int]@ == tag@);
                assert(spec_tag_set(tags@).contains(tag@));
            }
            return true;
        }
        i += 1;
    }
    proof {
        assert(!spec_tag_set(tags@).contains(tag@));
    }
    false
}

/// Mathematical model of a schema property.
pub struct PropertyView {
    pub name: Seq<char>,
    pub tags: Set<Seq<char>>,
    pub val_type: PropertyTypeView,
}

/// A property declared by a schema class: name, tags (such as `readonly`),
/// and the kind of value it accepts.
pub struct Property {
    pub name: String,
    pub tags: Vec<String>,
    pub val_type: PropertyType,
}

impl View for Property {
    type V = PropertyView;

    open spec fn view(&self) -> PropertyView {
        PropertyView {
            name: self.name@,
            tags: spec_tag_set(self.tags@),
            val_type: self.val_type@,
        }
    }
}

impl Property {
    pub fn new(name: String, tags: Vec<String>, val_type: PropertyType) -> (r: Property)
        ensures
            r@ == (PropertyView {
                name: name@,
                tags: spec_tag_set(tags@),
                val_type: val_type@,
            }),
    {
        Property { name, tags, val_type }
    }

    pub fn get_name(&self) -> (r: &str)
        ensures
            r@ == self@.name,
    {
        self.name.as_str()
    }

    /// Whether this property carries the given tag.
    pub fn has_tag(&self, tag: &str) -> (r: bool)
        ensures
            r == self@.tags.contains(tag@),
    {
        tags_contain(&self.tags, tag)
    }
}

/// Mathematical model of a schema class.
pub struct InstanceView {
    pub name: Seq<char>,
    pub tags: Set<Seq<char>>,
    pub superclass: Option<Seq<char>>,
    pub properties: Seq<PropertyView>,
}

/// A schema class: its name, tags (such as `notCreatable`), the name of its
/// superclass (absent only for the root class), and its declared properties.
pub struct Instance {
    pub name: String,
    pub tags: Vec<String>,
    pub superclass: Option<String>,
    pub properties: Vec<Property>,
}

impl View for Instance {
    type V = InstanceView;

    open spec fn view(&self) -> InstanceView {
        InstanceView {
            name: self.name@,
            tags: spec_tag_set(self.tags@),
            superclass: match self.superclass {
                Some(s) => Some(s@),
                None => None,
            },
            properties: Seq::new(self.properties@.len(), |i: int| self.properties@[i]@),
        }
    }
}

/// The first property named `name` declared by `props` itself, if any.
pub open spec fn spec_find_property(props: Seq<PropertyView>, name: Seq<char>) -> Option<
    PropertyView,
>
    decreases props.len(),
{
    if props.len() == 0 {
        None
    } else if props[0].name == name {
        Some(props[0])
    } else {
        spec_find_property(props.drop_first(), name)
    }
}

impl Instance {
    pub fn new(name: String, tags: Vec<String>, superclass: Option<String>) -> (r: Instance)
        ensures
            r@.name == name@,
            r@.tags == spec_tag_set(tags@),
            r@.superclass == match superclass {
                Some(s) => Some(s@),
                None => None::<Seq<char>>,
            },
            r@.properties =~= Seq::<PropertyView>::empty(),
    {
        Instance { name, tags, superclass, properties: Vec::new() }
    }

    pub fn get_name(&self) -> (r: &str)
        ensures
            r@ == self@.name,
    {
        self.name.as_str()
    }

    /// Whether this class carries the given tag.
    pub fn has_tag(&self, tag: &str) -> (r: bool)
        ensures
            r == self@.tags.contains(tag@),
    {
        tags_contain(&self.tags, tag)
    }

    /// Declares one more property on this class, after those already present.
    pub fn add_property(&mut self, prop: Property)
        ensures
            final(self)@.name == old(self)@.name,
            final(self)@.tags == old(self)@.tags,
            final(self)@.superclass == old(self)@.superclass,
            final(self)@.properties =~= old(self)@.properties.push(prop@),
    {
        self.properties.push(prop)
    }

    /// The first property of this class itself with the given name, if any.
    fn get_property(&self, prop: &str) -> (r: Option<&Property>)
        ensures
            match r {
                Some(p) => spec_find_property(self@.properties, prop@) == Some(p@),
                None => spec_find_property(self@.properties, prop@) is None,
            },
    {
        proof {
            assert(self@.properties.skip(0) =~= self@.properties);
        }
        let mut i: usize = 0;
        while i < self.properties.len()
            invariant
                0 <= i <= self.properties@.len(),
                self@.properties.len() == self.properties@.len(),
                forall|j: int| 0 <= j < self.properties@.len()
                    ==> self@.properties[j] == self.properties@[j]@,
                spec_find_property(self@.properties, prop@)
                    == spec_find_property(self@.properties.skip(i as int), prop@),
            decreases self.properties@.len() - i,
        {
            proof {
                assert(self@.properties.skip(i as int)[0] == self@.properties[i as int]);
                assert(self@.properties.skip(i as int).drop_first()
                    =~= self@.properties.skip(i + 1));
            }
            if str_eq(self.properties[i].get_name(), prop) {
                return Some(&self.properties[i]);
            }
            i += 1;
        }
        proof {
            assert(self@.properties.skip(i as int).len() == 0);
        }
        None
    }

    pub fn get_superclass(&self) -> (r: &Option<String>)
        ensures
            match r {
                Some(s) => self@.superclass == Some(s@),
                None => self@.superclass is None,
            },
    {
        &self.superclass
    }
}

/// Mathematical model of a schema enum.
pub struct EnumView {
    pub name: Seq<char>,
    pub tags: Set<Seq<char>>,
    pub members: Set<Seq<char>>,
}

/// A schema enum: a named set of allowed member texts.
pub struct Enum {
    pub name: String,
    pub tags: Vec<String>,
    pub members: Vec<String>,
}

impl View for Enum {
    type V = EnumView;

    open spec fn view(&self) -> EnumView {
        EnumView {
            name: self.name@,
            tags: spec_tag_set(self.tags@),
            members: spec_tag_set(self.members@),
        }
    }
}

impl Enum {
    pub fn new(name: String, tags: Vec<String>) -> (r: Enum)
        ensures
            r@.name == name@,
            r@.tags == spec_tag_set(tags@),
            r@.members =~= Set::<Seq<char>>::empty(),
    {
        let e = Enum { name, tags, members: Vec::new() };
        proof {
            assert(e@.members =~= Set::<Seq<char>>::empty());
        }
        e
    }

    pub fn get_name(&self) -> (r: &str)
        ensures
            r@ == self@.name,
    {
        self.name.as_str()
    }

    /// Whether this enum carries the given tag.
    pub fn has_tag(&self, tag: &str) -> (r: bool)
        ensures
            r == self@.tags.contains(tag@),
    {
        tags_contain(&self.tags, tag)
    }

    /// Adds one allowed member text to this enum.
    pub fn add_member(&mut self, member: String)
        ensures
            final(self)@.name == old(self)@.name,
            final(self)@.tags == old(self)@.tags,
            final(self)@.members =~= old(self)@.members.insert(member@),
    {
        let ghost members0 = self.members@;
        let ghost m = member;
        self.members.push(member);
        proof {
            lemma_tag_set_push(members0, m);
        }
    }

    /// Whether `member` is one of this enum's allowed member texts.
    pub fn has_member(&self, member: &str) -> (r: bool)
        ensures
            r == self@.members.contains(member@),
    {
        tags_contain(&self.members, member)
    }
}

/// Mathematical model of the whole schema: its class and enum tables.
pub struct RobloxApiView {
    pub instances: Seq<InstanceView>,
    pub enums: Seq<EnumView>,
}

/// The index of the first class named `name`, or `-1` when there is none.
pub open spec fn spec_find_class_idx(classes: Seq<InstanceView>, name: Seq<char>) -> int
    decreases classes.len(),
{
    if classes.len() == 0 {
        -1
    } else if classes[0].name == name {
        0
    } else {
        let rest = spec_find_class_idx(classes.drop_first(), name);
        if rest < 0 {
            -1
        } else {
            rest + 1
        }
    }
}

/// The first class named `name`, if any.
pub open spec fn spec_find_class(classes: Seq<InstanceView>, name: Seq<char>) -> Option<
    InstanceView,
> {
    let i = spec_find_class_idx(classes, name);
    if i < 0 {
        None
    } else {
        Some(classes[i])
    }
}

/// `spec_find_class_idx` names the first index whose class is called `name`.
pub proof fn lemma_find_class_idx(classes: Seq<InstanceView>, name: Seq<char>)
    ensures
        spec_find_class_idx(classes, name) >= 0 ==> {
            let i = spec_find_class_idx(classes, name);
            &&& 0 <= i < classes.len()
            &&& classes[i].name == name
            &&& forall|j: int| 0 <= j < i ==> classes[j].name != name
        },
        spec_find_class_idx(classes, name) < 0 ==> forall|j: int|
            0 <= j < classes.len() ==> classes[j].name != name,
    decreases classes.len(),
{
    if classes.len() > 0 {
        let rest = classes.drop_first();
        lemma_find_class_idx(rest, name);
        if classes[0].name != name {
            let r = spec_find_class_idx(rest, name);
            if r >= 0 {
                assert(rest[r] == classes[r + 1]);
                assert forall|j: int| 0 <= j < r + 1 implies classes[j].name != name by {
                    if j > 0 {
                        assert(rest[j - 1] == classes[j]);
                    }
                }
            } else {
                assert forall|j: int| 0 <= j < classes.len() implies classes[j].name != name by {
                    if j > 0 {
                        assert(rest[j - 1] == classes[j]);
                    }
                }
            }
        }
    }
}

/// The index of the first enum named `name`, or `-1` when there is none.
pub open spec fn spec_find_enum_idx(enums: Seq<EnumView>, name: Seq<char>) -> int
    decreases enums.len(),
{
    if enums.len() == 0 {
        -1
    } else if enums[0].name == name {
        0
    } else {
        let rest = spec_find_enum_idx(enums.drop_first(), name);
        if rest < 0 {
            -1
        } else {
            rest + 1
        }
    }
}

/// The first enum named `name`, if any.
pub open spec fn spec_find_enum(enums: Seq<EnumView>, name: Seq<char>) -> Option<EnumView> {
    let i = spec_find_enum_idx(enums, name);
    if i < 0 {
        None
    } else {
        Some(enums[i])
    }
}

/// `spec_find_enum_idx` names the first index whose enum is called `name`.
pub proof fn lemma_find_enum_idx(enums: Seq<EnumView>, name: Seq<char>)
    ensures
        spec_find_enum_idx(enums, name) >= 0 ==> {
            let i = spec_find_enum_idx(enums, name);
            &&& 0 <= i < enums.len()
            &&& enums[i].name == name
            &&& forall|j: int| 0 <= j < i ==> enums[j].name != name
        },
        spec_find_enum_idx(enums, name) < 0 ==> forall|j: int|
            0 <= j < enums.len() ==> enums[j].name != name,
    decreases enums.len(),
{
    if enums.len() > 0 {
        let rest = enums.drop_first();
        lemma_find_enum_idx(rest, name);
        if enums[0].name != name {
            let r = spec_find_enum_idx(rest, name);
            if r >= 0 {
                assert(rest[r] == enums[r + 1]);
                assert forall|j: int| 0 <= j < r + 1 implies enums[j].name != name by {
                    if j > 0 {
                        assert(rest[j - 1] == enums[j]);
                    }
                }
            } else {
                assert forall|j: int| 0 <= j < enums.len() implies enums[j].name != name by {
                    if j > 0 {
                        assert(rest[j - 1] == enums[j]);
                    }
                }
            }
        }
    }
}

/// Resolution of a property name against a class and its ancestors: the class
/// itself is searched first, then its superclass chain, following at most
/// `fuel` superclass links through the class table.
pub open spec fn spec_resolve_property(
    api: RobloxApiView,
    class: InstanceView,
    prop: Seq<char>,
    fuel: nat,
) -> Option<PropertyView>
    decreases fuel,
{
    match spec_find_property(class.properties, prop) {
        Some(p) => Some(p),
        None => match class.superclass {
            None => None,
            Some(sp) => if fuel == 0 {
                None
            } else {
                match spec_find_class(api.instances, sp) {
                    None => None,
                    Some(c) => spec_resolve_property(api, c, prop, (fuel - 1) as nat),
                }
            },
        },
    }
}

/// Whether a value can be assigned to a property declared with kind `ty`:
/// concrete kinds require the value kind to match exactly, and an enum
/// reference requires a string or bare enum member whose text is a member of
/// the referenced enum of the schema.
pub open spec fn spec_can_take_value(
    api: RobloxApiView,
    ty: PropertyTypeView,
    v: ValueView,
) -> bool {
    match ty {
        PropertyTypeView::String => v is StringLiteral,
        PropertyTypeView::Number => v is Number,
        PropertyTypeView::Boolean => v is Boolean,
        PropertyTypeView::Color => v is Color,
        PropertyTypeView::UDim2 => v is UDim2,
        PropertyTypeView::Other(ename) => match spec_find_enum(api.enums, ename) {
            None => false,
            Some(e) => match v {
                ValueView::StringLiteral(t) => e.members.contains(t),
                ValueView::EnumMember(t) => e.members.contains(t),
                _ => false,
            },
        },
    }
}

/// The schema: a table of classes and a table of enums, looked up by name.
pub struct RobloxApi {
    pub instances: Vec<Instance>,
    pub enums: Vec<Enum>,
}

impl View for RobloxApi {
    type V = RobloxApiView;

    open spec fn view(&self) -> RobloxApiView {
        RobloxApiView {
            instances: Seq::new(self.instances@.len(), |i: int| self.instances@[i]@),
            enums: Seq::new(self.enums@.len(), |i: int| self.enums@[i]@),
        }
    }
}

impl RobloxApi {
    pub fn new() -> (r: RobloxApi)
        ensures
            r@.instances =~= Seq::<InstanceView>::empty(),
            r@.enums =~= Seq::<EnumView>::empty(),
    {
        RobloxApi { instances: Vec::new(), enums: Vec::new() }
    }

    /// Appends a class to the class table.
    pub fn add_instance(&mut self, inst: Instance)
        ensures
            final(self)@.instances =~= old(self)@.instances.push(inst@),
            final(self)@.enums =~= old(self)@.enums,
    {
        self.instances.push(inst)
    }

    /// The first class of the table with the given name, if any.
    pub fn get_instance(&self, name: &str) -> (r: Option<&Instance>)
        ensures
            match r {
                Some(c) => spec_find_class(self@.instances, name@) == Some(c@),
                None => spec_find_class(self@.instances, name@) is None,
            },
    {
        proof {
            lemma_find_class_idx(self@.instances, name@);
        }
        let mut i: usize = 0;
        while i < self.instances.len()
            invariant
                0 <= i <= self.instances@.len(),
                self@.instances.len() == self.instances@.len(),
                forall|j: int| 0 <= j < self.instances@.len()
                    ==> self@.instances[j] == self.instances@[j]@,
                forall|j: int| 0 <= j < i ==> self@.instances[j].name != name@,
            decreases self.instances@.len() - i,
        {
            if str_eq(self.instances[i].get_name(), name) {
                proof {
                    lemma_find_class_idx(self@.instances, name@);
                    let idx = spec_find_class_idx(self@.instances, name@);
                    assert(self@.instances[i as int].name == name@);
                    if idx < 0 {
                        assert(false);
                    } else if idx < i as int {
                        assert(self@.instances[idx].name == name@);
                        assert(false);
                    } else if idx > i as int {
                        assert(self@.instances[i as int].name != name@);
                        assert(false);
                    }
                }
                return Some(&self.instances[i]);
            }
            i += 1;
        }
        proof {
            lemma_find_class_idx(self@.instances, name@);
            let idx = spec_find_class_idx(self@.instances, name@);
            if idx >= 0 {
                assert(self@.instances[idx].name == name@);
                assert(false);
            }
        }
        None
    }

    /// A mutable borrow of the first class with the given name, if any.
    pub fn get_instance_mut(&mut self, name: &str) -> (r: Option<&mut Instance>)
        ensures
            spec_find_class(old(self)@.instances, name@) is None ==> r is None
                && final(self)@ == old(self)@,
            spec_find_class(old(self)@.instances, name@) is Some ==> r is Some && {
                let i = spec_find_class_idx(old(self)@.instances, name@);
                &&& (*r.unwrap())@ == old(self)@.instances[i]
                &&& final(self)@.instances =~= old(self)@.instances.update(
                    i,
                    (*final(r.unwrap()))@,
                )
                &&& final(self)@.enums =~= old(self)@.enums
            },
    {
        proof {
            lemma_find_class_idx(self@.instances, name@);
        }
        let n = self.instances.len();
        let mut i: usize = 0;
        while i < n
            invariant
                0 <= i <= n,
                n == self.instances@.len(),
                self == old(self),
                forall|j: int| 0 <= j < i ==> self@.instances[j].name != name@,
            decreases n - i,
        {
            if str_eq(self.instances[i].get_name(), name) {
                proof {
                    lemma_find_class_idx(self@.instances, name@);
                    let idx = spec_find_class_idx(self@.instances, name@);
                    assert(self@.instances[i as int].name == name@);
                    if idx < 0 {
                        assert(false);
                    } else if idx < i as int {
                        assert(self@.instances[idx].name == name@);
                        assert(false);
                    } else if idx > i as int {
                        assert(self@.instances[i as int].name != name@);
                        assert(false);
                    }
                }
                return Some(&mut self.instances[i]);
            }
            i += 1;
        }
        proof {
            lemma_find_class_idx(self@.instances, name@);
            let idx = spec_find_class_idx(self@.instances, name@);
            if idx >= 0 {
                assert(self@.instances[idx].name == name@);
                assert(false);
            }
        }
        None
    }

    /// Appends an enum to the enum table.
    pub fn add_enum(&mut self, enm: Enum)
        ensures
            final(self)@.enums =~= old(self)@.enums.push(enm@),
            final(self)@.instances =~= old(self)@.instances,
    {
        self.enums.push(enm)
    }

    /// The first enum of the table with the given name, if any.
    pub fn get_enum(&self, name: &str) -> (r: Option<&Enum>)
        ensures
            match r {
                Some(e) => spec_find_enum(self@.enums, name@) == Some(e@),
                None => spec_find_enum(self@.enums, name@) is None,
            },
    {
        proof {
            lemma_find_enum_idx(self@.enums, name@);
        }
        let mut i: usize = 0;
        while i < self.enums.len()
            invariant
                0 <= i <= self.enums@.len(),
                self@.enums.len() == self.enums@.len(),
                forall|j: int| 0 <= j < self.enums@.len() ==> self@.enums[j] == self.enums@[j]@,
                forall|j: int| 0 <= j < i ==> self@.enums[j].name != name@,
            decreases self.enums@.len() - i,
        {
            if str_eq(self.enums[i].get_name(), name) {
                proof {
                    lemma_find_enum_idx(self@.enums, name@);
                    let idx = spec_find_enum_idx(self@.enums, name@);
                    assert(self@.enums[i as int].name == name@);
                    if idx < 0 {
                        assert(false);
                    } else if idx < i as int {
                        assert(self@.enums[idx].name == name@);
                        assert(false);
                    } else if idx > i as int {
                        assert(self@.enums[i as int].name != name@);
                        assert(false);
                    }
                }
                return Some(&self.enums[i]);
            }
            i += 1;
        }
        proof {
            lemma_find_enum_idx(self@.enums, name@);
            let idx = spec_find_enum_idx(self@.enums, name@);
            if idx >= 0 {
                assert(self@.enums[idx].name == name@);
                assert(false);
            }
        }
        None
    }

    /// A mutable borrow of the first enum with the given name, if any.
    pub fn get_enum_mut(&mut self, name: &str) -> (r: Option<&mut Enum>)
        ensures
            spec_find_enum(old(self)@.enums, name@) is None ==> r is None
                && final(self)@ == old(self)@,
            spec_find_enum(old(self)@.enums, name@) is Some ==> r is Some && {
                let i = spec_find_enum_idx(old(self)@.enums, name@);
                &&& (*r.unwrap())@ == old(self)@.enums[i]
                &&& final(self)@.enums =~= old(self)@.enums.update(i, (*final(r.unwrap()))@)
                &&& final(self)@.instances =~= old(self)@.instances
            },
    {
        proof {
            lemma_find_enum_idx(self@.enums, name@);
        }
        let n = self.enums.len();
        let mut i: usize = 0;
        while i < n
            invariant
                0 <= i <= n,
                n == self.enums@.len(),
                self == old(self),
                forall|j: int| 0 <= j < i ==> self@.enums[j].name != name@,
            decreases n - i,
        {
            if str_eq(self.enums[i].get_name(), name) {
                proof {
                    lemma_find_enum_idx(self@.enums, name@);
                    let idx = spec_find_enum_idx(self@.enums, name@);
                    assert(self@.enums[i as int].name == name@);
                    if idx < 0 {
                        assert(false);
                    } else if idx < i as int {
                        assert(self@.enums[idx].name == name@);
                        assert(false);
                    } else if idx > i as int {
                        assert(self@.enums[i as int].name != name@);
                        assert(false);
                    }
                }
                return Some(&mut self.enums[i]);
            }
            i += 1;
        }
        proof {
            lemma_find_enum_idx(self@.enums, name@);
            let idx = spec_find_enum_idx(self@.enums, name@);
            if idx >= 0 {
                assert(self@.enums[idx].name == name@);
                assert(false);
            }
        }
        None
    }

    /// Resolution through at most `fuel` superclass links.
    fn resolve_property_fuel<'a>(&'a self, class: &'a Instance, prop: &'a str, fuel: usize) -> (r: Option<
        &'a Property,
    >)
        ensures
            match r {
                Some(p) => spec_resolve_property(self@, class@, prop@, fuel as nat) == Some(p@),
                None => spec_resolve_property(self@, class@, prop@, fuel as nat) is None,
            },
        decreases fuel,
    {
        match class.get_property(prop) {
            Some(p) => Some(p),
            None => match class.get_superclass() {
                None => None,
                Some(sp) => {
                    if fuel == 0 {
                        None
                    } else {
                        match self.get_instance(sp.as_str()) {
                            None => None,
                            Some(c) => self.resolve_property_fuel(c, prop, fuel - 1),
                        }
                    }
                },
            },
        }
    }

    /// Resolves a property name against a class, walking the superclass chain
    /// upward through this schema until some ancestor declares it.
    pub fn get_property<'a>(&'a self, inst: &'a Instance, prop: &'a str) -> (r: Option<&'a Property>)
        ensures
            match r {
                Some(p) => spec_resolve_property(
                    self@,
                    inst@,
                    prop@,
                    self@.instances.len() as nat,
                ) == Some(p@),
                None => spec_resolve_property(
                    self@,
                    inst@,
                    prop@,
                    self@.instances.len() as nat,
                ) is None,
            },
    {
        let fuel = self.instances.len();
        self.resolve_property_fuel(inst, prop, fuel)
    }
}

impl Property {
    /// Whether `val` can be assigned to a property of this declared kind,
    /// resolving enum references against the given schema.
    pub fn can_take_value(&self, api: &RobloxApi, val: &Value) -> (r: bool)
        ensures
            r == spec_can_take_value(api@, self@.val_type, val@),
    {
        match &self.val_type {
            PropertyType::String => matches!(val, Value::StringLiteral(_)),
            PropertyType::Number => matches!(val, Value::Number(_)),
            PropertyType::Boolean => matches!(val, Value::Boolean(_)),
            PropertyType::Color => matches!(val, Value::Color(_, _, _)),
            PropertyType::UDim2 => matches!(val, Value::UDim2(_, _, _, _)),
            PropertyType::Other(enum_name) => match api.get_enum(enum_name.as_str()) {
                None => false,
                Some(e) => match val {
                    Value::StringLiteral(member) => e.has_member(member.as_str()),
                    Value::EnumMember(member) => e.has_member(member.as_str()),
                    _ => false,
                },
            },
        }
    }
}

/// The property kind a schema type descriptor denotes: the numeric, boolean,
/// color, string and dimension spellings map to their concrete kinds, and
/// any other descriptor is an enum reference carrying its own name.
pub open spec fn spec_property_type_of(vt: Seq<char>) -> PropertyTypeView {
    if vt == "float"@ || vt == "int"@ || vt == "double"@ {
        PropertyTypeView::Number
    } else if vt == "bool"@ {
        PropertyTypeView::Boolean
    } else if vt == "Color3"@ {
        PropertyTypeView::Color
    } else if vt == "string"@ || vt == "Content"@ {
        PropertyTypeView::String
    } else if vt == "UDim2"@ {
        PropertyTypeView::UDim2
    } else {
        PropertyTypeView::Other(vt)
    }
}

impl PropertyType {
    /// The declared kind named by a schema type descriptor.
    pub fn from_descriptor(vt: &str) -> (r: PropertyType)
        ensures
            r@ == spec_property_type_of(vt@),
    {
        if str_eq(vt, "float") || str_eq(vt, "int") || str_eq(vt, "double") {
            PropertyType::Number
        } else if str_eq(vt, "bool") {
            PropertyType::Boolean
        } else if str_eq(vt, "Color3") {
            PropertyType::Color
        } else if str_eq(vt, "string") || str_eq(vt, "Content") {
            PropertyType::String
        } else if str_eq(vt, "UDim2") {
            PropertyType::UDim2
        } else {
            PropertyType::Other(vt.to_owned())
        }
    }
}

} // verus!
