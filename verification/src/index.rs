use crate::model::{find_method, Class, ClassView, Method, MethodView};
use crate::table::{
    lemma_position_of, lemma_with_entry, lookup, position_of, with_entry, NameTable,
};
use vstd::prelude::*;

verus! {

/// The index of all classes: each class under its mapped name, and the
/// mapped name of each class under its intermediary name.
#[derive(Debug)]
pub struct Mappings {
    pub mapped_map: NameTable<Class>,
    pub intermediary_map: NameTable<String>,
}

/// The mathematical value of a [`Mappings`].
pub struct MappingsView {
    pub mapped_map: Seq<(Seq<char>, ClassView)>,
    pub intermediary_map: Seq<(Seq<char>, Seq<char>)>,
}

impl View for Mappings {
    type V = MappingsView;

    open spec fn view(&self) -> MappingsView {
        MappingsView { mapped_map: self.mapped_map@, intermediary_map: self.intermediary_map@ }
    }
}

/// The class that a name stands for: the class of that mapped name, else the
/// class whose intermediary name it is.
pub open spec fn resolve_class(m: MappingsView, name: Seq<char>) -> Option<ClassView> {
    match lookup(m.mapped_map, name) {
        Some(c) => Some(c),
        None => match lookup(m.intermediary_map, name) {
            Some(mapped) => lookup(m.mapped_map, mapped),
            None => None,
        },
    }
}

/// Every intermediary name leads to a class of the index.
pub open spec fn aliases_resolve(m: MappingsView) -> bool {
    forall|i: int|
        0 <= i < m.intermediary_map.len() ==> lookup(
            m.mapped_map,
            (#[trigger] m.intermediary_map[i]).1,
        ).is_some()
}

/// The index after the intermediary name was made to lead to the mapped name.
pub open spec fn with_alias(m: MappingsView, mapped_name: Seq<char>, intermediary_name: Seq<char>)
    -> MappingsView {
    MappingsView {
        intermediary_map: with_entry(m.intermediary_map, intermediary_name, mapped_name),
        ..m
    }
}

/// The index after a class was stored under its mapped name and made
/// reachable by its intermediary name.
pub open spec fn with_class(
    m: MappingsView,
    mapped_name: Seq<char>,
    intermediary_name: Seq<char>,
    class: ClassView,
) -> MappingsView {
    MappingsView {
        mapped_map: with_entry(m.mapped_map, mapped_name, class),
        intermediary_map: with_entry(m.intermediary_map, intermediary_name, mapped_name),
    }
}

/// Storing a class keeps every intermediary name leading to a class, and the
/// stored class is then what both of its names stand for, unless its
/// intermediary name is the mapped name of another class.
pub proof fn lemma_with_class(
    m: MappingsView,
    mapped_name: Seq<char>,
    intermediary_name: Seq<char>,
    class: ClassView,
)
    ensures
        aliases_resolve(m) ==> aliases_resolve(
            with_class(m, mapped_name, intermediary_name, class),
        ),
        resolve_class(with_class(m, mapped_name, intermediary_name, class), mapped_name) == Some(
            class,
        ),
        lookup(m.mapped_map, intermediary_name).is_none() ==> resolve_class(
            with_class(m, mapped_name, intermediary_name, class),
            intermediary_name,
        ) == Some(class),
{
    let after = with_class(m, mapped_name, intermediary_name, class);
    lemma_with_entry(m.mapped_map, mapped_name, class);
    lemma_with_entry(m.intermediary_map, intermediary_name, mapped_name);
    if aliases_resolve(m) {
        assert forall|i: int| 0 <= i < after.intermediary_map.len() implies lookup(
            after.mapped_map,
            (#[trigger] after.intermediary_map[i]).1,
        ).is_some() by {
            let target = after.intermediary_map[i].1;
            if target != mapped_name {
                lemma_position_of(m.intermediary_map, intermediary_name);
                match position_of(m.intermediary_map, intermediary_name) {
                    Some(k) => {
                        assert(i != k);
                    },
                    None => {
                        assert(i != m.intermediary_map.len());
                    },
                }
                assert(m.intermediary_map[i] == after.intermediary_map[i]);
                assert(lookup(after.mapped_map, target) == lookup(m.mapped_map, target));
            }
        }
    }
    if lookup(m.mapped_map, intermediary_name).is_none() {
        if intermediary_name != mapped_name {
            assert(lookup(after.mapped_map, intermediary_name) == lookup(
                m.mapped_map,
                intermediary_name,
            ));
        }
    }
}

impl Mappings {
    /// The index without classes.
    pub fn new() -> (m: Mappings)
        ensures
            m@ == (MappingsView { mapped_map: Seq::empty(), intermediary_map: Seq::empty() }),
            aliases_resolve(m@),
    {
        Mappings { mapped_map: NameTable::new(), intermediary_map: NameTable::new() }
    }

    /// Makes the intermediary name lead to the mapped name.
    pub fn insert(&mut self, mapped_name: String, intermediary_name: String)
        ensures
            final(self)@ == with_alias(old(self)@, mapped_name@, intermediary_name@),
    {
        self.intermediary_map.insert(intermediary_name, mapped_name);
    }

    /// Stores a class under its mapped name and makes it reachable by its
    /// intermediary name.
    pub fn insert_class(&mut self, mapped_name: String, intermediary_name: String, class: Class)
        ensures
            final(self)@ == with_class(old(self)@, mapped_name@, intermediary_name@, class@),
            aliases_resolve(old(self)@) ==> aliases_resolve(final(self)@),
    {
        proof {
            lemma_with_class(self@, mapped_name@, intermediary_name@, class@);
        }
        self.mapped_map.insert(mapped_name.clone(), class);
        self.insert(mapped_name, intermediary_name);
    }

    /// Whether every intermediary name leads to a class of the index.
    pub fn is_consistent(&self) -> (r: bool)
        ensures
            r == aliases_resolve(self@),
    {
        let mut i: usize = 0;
        while i < self.intermediary_map.len()
            invariant
                i <= self.intermediary_map@.len(),
                forall|k: int|
                    0 <= k < i ==> lookup(
                        self@.mapped_map,
                        (#[trigger] self@.intermediary_map[k]).1,
                    ).is_some(),
            decreases self.intermediary_map@.len() - i,
        {
            if !self.mapped_map.contains_key(self.intermediary_map.value_at(i).as_str()) {
                return false;
            }
            i += 1;
        }
        true
    }

    /// The class that `name` stands for, if it stands for one.
    pub fn find(&self, name: &str) -> (r: Option<&Class>)
        ensures
            match r {
                Some(c) => resolve_class(self@, name@) == Some(c@),
                None => resolve_class(self@, name@).is_none(),
            },
    {
        match self.mapped_map.get(name) {
            Some(c) => Some(c),
            None => match self.intermediary_map.get(name) {
                Some(mapped) => self.mapped_map.get(mapped.as_str()),
                None => None,
            },
        }
    }

    /// The class that `name` stands for.
    pub fn get(&self, name: &str) -> (c: &Class)
        requires
            resolve_class(self@, name@).is_some(),
        ensures
            resolve_class(self@, name@) == Some(c@),
    {
        match self.find(name) {
            Some(c) => c,
            None => vstd::pervasive::unreached(),
        }
    }
}

/// The class that `class` stands for in the index.
pub fn get_class<'a>(mappings: &'a Mappings, class: &str) -> (c: &'a Class)
    requires
        resolve_class(mappings@, class@).is_some(),
    ensures
        resolve_class(mappings@, class@) == Some(c@),
{
    mappings.get(class)
}

/// An ordered list of classes, the most derived first, in which a member is
/// looked for.
pub struct ClassGetter<'a> {
    classes: Vec<&'a Class>,
}

impl<'a> View for ClassGetter<'a> {
    type V = Seq<ClassView>;

    closed spec fn view(&self) -> Seq<ClassView> {
        self.classes@.map_values(|c: &Class| c@)
    }
}

/// The method that `name` stands for in the first of the classes from place
/// `from` on that has one.
pub open spec fn first_method(classes: Seq<ClassView>, name: Seq<char>, from: int) -> Option<
    MethodView,
>
    decreases classes.len() - from,
{
    if from < 0 || from >= classes.len() {
        None
    } else {
        match find_method(classes[from], name) {
            Some(m) => Some(m),
            None => first_method(classes, name, from + 1),
        }
    }
}

impl<'a> ClassGetter<'a> {
    /// The method that `method` stands for in the first class of the list
    /// that has one.
    pub fn get_method(&self, method: &str) -> (r: Option<&Method>)
        ensures
            match r {
                Some(m) => first_method(self@, method@, 0) == Some(m@),
                None => first_method(self@, method@, 0).is_none(),
            },
    {
        let mut i: usize = 0;
        while i < self.classes.len()
            invariant
                i <= self.classes.len(),
                first_method(self@, method@, 0) == first_method(self@, method@, i as int),
            decreases self.classes.len() - i,
        {
            match self.classes[i].get_method(method) {
                Some(m) => {
                    return Some(m);
                },
                None => {},
            }
            i += 1;
        }
        None
    }
}

/// The classes that the names stand for, in the order of the names.
pub fn get_multiple_class<'a>(mappings: &'a Mappings, class: &[&str]) -> (getter: ClassGetter<'a>)
    requires
        forall|i: int| 0 <= i < class@.len() ==> resolve_class(mappings@, class@[i]@).is_some(),
    ensures
        getter@.len() == class@.len(),
        forall|i: int|
            0 <= i < class@.len() ==> resolve_class(mappings@, class@[i]@) == Some(getter@[i]),
{
    let mut classes: Vec<&'a Class> = Vec::new();
    let mut i: usize = 0;
    while i < class.len()
        invariant
            i <= class@.len(),
            classes.len() == i,
            forall|k: int| 0 <= k < class@.len() ==> resolve_class(mappings@, class@[k]@).is_some(),
            forall|k: int|
                0 <= k < i ==> resolve_class(mappings@, class@[k]@) == Some((#[trigger] classes[k])@),
        decreases class@.len() - i,
    {
        let c = mappings.get(class[i]);
        classes.push(c);
        i += 1;
    }
    ClassGetter { classes }
}

} // verus!
