use crate::index::{aliases_resolve, Mappings, MappingsView};
use crate::model::{ArgView, Class, ClassView, FieldView, Method, MethodView};
use crate::resolve::{blank_field, blank_method};
use crate::table::{lemma_same_names, lookup};
use vstd::prelude::*;

verus! {

/// What the outside answered for a method: a modifier set for the method,
/// and one for each of its arguments.
#[derive(Clone, Debug)]
pub struct MethodModifiers {
    pub method: u16,
    pub args: Vec<u16>,
}

/// What the outside answered for a class: the answer for each method, in the
/// order of the class's methods, and a modifier set for each field, in the
/// order of its fields.
#[derive(Clone, Debug)]
pub struct ClassModifiers {
    pub methods: Vec<MethodModifiers>,
    pub fields: Vec<u16>,
}

/// The modifier set that an answer of 16 bits stands for: its low 8 bits.
pub open spec fn low_byte(answer: u16) -> u8 {
    (answer % 256) as u8
}

/// Whether the answer has a modifier set for each argument of the method.
pub open spec fn method_fits(m: MethodView, a: MethodModifiers) -> bool {
    a.args@.len() == m.args.len()
}

/// The method with the answered modifier sets.
pub open spec fn enriched_method(m: MethodView, a: MethodModifiers) -> MethodView {
    MethodView {
        modifiers: low_byte(a.method),
        args: Seq::new(
            m.args.len(),
            |k: int| ArgView { modifiers: low_byte(a.args@[k]), ..m.args[k] },
        ),
        ..m
    }
}

/// Whether the answer has the shape of the class: an answer that fits for
/// each method, and a modifier set for each field.
pub open spec fn class_fits(c: ClassView, a: ClassModifiers) -> bool {
    &&& a.methods@.len() == c.methods.len()
    &&& a.fields@.len() == c.fields.len()
    &&& forall|j: int|
        0 <= j < c.methods.len() ==> method_fits((#[trigger] c.methods[j]).1, a.methods@[j])
}

/// The class with the answered modifier sets.
pub open spec fn enriched_class(c: ClassView, a: ClassModifiers) -> ClassView {
    ClassView {
        methods: Seq::new(
            c.methods.len(),
            |j: int| (c.methods[j].0, enriched_method(c.methods[j].1, a.methods@[j])),
        ),
        fields: Seq::new(
            c.fields.len(),
            |j: int|
                (c.fields[j].0, FieldView { modifiers: low_byte(a.fields@[j]), ..c.fields[j].1 }),
        ),
        ..c
    }
}

/// Whether there is an answer of the right shape for each class.
pub open spec fn answers_fit(m: MappingsView, answers: Seq<ClassModifiers>) -> bool {
    &&& answers.len() == m.mapped_map.len()
    &&& forall|i: int|
        0 <= i < m.mapped_map.len() ==> class_fits((#[trigger] m.mapped_map[i]).1, answers[i])
}

/// The index with the answered modifier sets, in the first `n` classes.
pub open spec fn enriched(m: MappingsView, answers: Seq<ClassModifiers>, n: int) -> MappingsView {
    MappingsView {
        mapped_map: Seq::new(
            m.mapped_map.len(),
            |i: int|
                if i < n {
                    (m.mapped_map[i].0, enriched_class(m.mapped_map[i].1, answers[i]))
                } else {
                    m.mapped_map[i]
                },
        ),
        ..m
    }
}

/// The low 8 bits of an answer.
pub fn low_byte_of(answer: u16) -> (b: u8)
    ensures
        b == low_byte(answer),
{
    (answer % 256) as u8
}

impl Method {
    /// Takes over the answered modifier sets, where the answer has one for
    /// each argument; else the method stays as it is.
    pub fn set_modifiers(&mut self, answer: &MethodModifiers) -> (done: bool)
        ensures
            done == method_fits(old(self)@, *answer),
            done ==> final(self)@ == enriched_method(old(self)@, *answer),
            !done ==> final(self)@ == old(self)@,
    {
        if answer.args.len() != self.args.len() {
            return false;
        }
        let ghost before = self@;
        let n = self.args.len();
        let mut k: usize = 0;
        while k < n
            invariant
                k <= n,
                n == before.args.len(),
                answer.args@.len() == n,
                self.args@.len() == n,
                self@ == (MethodView { args: self@.args, ..before }),
                forall|i: int|
                    0 <= i < k ==> (#[trigger] self@.args[i]) == (ArgView {
                        modifiers: low_byte(answer.args@[i]),
                        ..before.args[i]
                    }),
                forall|i: int| k <= i < n ==> (#[trigger] self@.args[i]) == before.args[i],
            decreases n - k,
        {
            let bits = low_byte_of(answer.args[k]);
            let ghost held = self.args@;
            let ghost seen = self@.args;
            assert(forall|i: int| 0 <= i < n ==> seen[i] == held[i]@);
            self.args[k].modifiers = bits;
            assert(self.args@.len() == held.len());
            assert(self@.args[k as int] == (ArgView { modifiers: bits, ..seen[k as int] }));
            assert forall|i: int| 0 <= i < n && i != k implies #[trigger] self@.args[i]
                == seen[i] by {
                assert(self.args@[i] == held[i]);
            }
            k += 1;
        }
        self.modifiers = low_byte_of(answer.method);
        assert(self@.args =~= enriched_method(before, *answer).args);
        true
    }
}

impl Class {
    /// Whether the answer has the shape of the class.
    pub fn fits(&self, answer: &ClassModifiers) -> (r: bool)
        ensures
            r == class_fits(self@, *answer),
    {
        if answer.methods.len() != self.methods.len() || answer.fields.len() != self.fields.len() {
            return false;
        }
        let mut j: usize = 0;
        while j < self.methods.len()
            invariant
                j <= self.methods@.len(),
                answer.methods@.len() == self.methods@.len(),
                answer.fields@.len() == self.fields@.len(),
                forall|i: int|
                    0 <= i < j ==> method_fits((#[trigger] self@.methods[i]).1, answer.methods@[i]),
            decreases self.methods@.len() - j,
        {
            if answer.methods[j].args.len() != self.methods.value_at(j).args.len() {
                assert(!method_fits(self@.methods[j as int].1, answer.methods@[j as int]));
                return false;
            }
            j += 1;
        }
        true
    }

    /// Takes over the answered modifier sets, where the answer has the shape
    /// of the class; else the class stays as it is.
    pub fn set_modifiers(&mut self, answer: &ClassModifiers) -> (done: bool)
        ensures
            done == class_fits(old(self)@, *answer),
            done ==> final(self)@ == enriched_class(old(self)@, *answer),
            !done ==> final(self)@ == old(self)@,
    {
        if !self.fits(answer) {
            return false;
        }
        let ghost before = self@;
        let n = self.methods.len();
        let mut j: usize = 0;
        while j < n
            invariant
                j <= n,
                n == before.methods.len(),
                class_fits(before, *answer),
                self@ == (ClassView { methods: self@.methods, ..before }),
                self@.methods.len() == n,
                forall|i: int|
                    0 <= i < j ==> (#[trigger] self@.methods[i]) == (
                        before.methods[i].0,
                        enriched_method(before.methods[i].1, answer.methods@[i]),
                    ),
                forall|i: int| j <= i < n ==> (#[trigger] self@.methods[i]) == before.methods[i],
            decreases n - j,
        {
            let mut method = self.methods.replace_at(j, blank_method());
            assert(method@ == before.methods[j as int].1);
            let _ = method.set_modifiers(&answer.methods[j]);
            let _ = self.methods.replace_at(j, method);
            j += 1;
        }
        let m = self.fields.len();
        let mut k: usize = 0;
        while k < m
            invariant
                k <= m,
                m == before.fields.len(),
                answer.fields@.len() == m,
                self@ == (ClassView { fields: self@.fields, methods: self@.methods, ..before }),
                self@.methods == enriched_class(before, *answer).methods,
                self@.fields.len() == m,
                forall|i: int|
                    0 <= i < k ==> (#[trigger] self@.fields[i]) == (
                        before.fields[i].0,
                        FieldView { modifiers: low_byte(answer.fields@[i]), ..before.fields[i].1 },
                    ),
                forall|i: int| k <= i < m ==> (#[trigger] self@.fields[i]) == before.fields[i],
            decreases m - k,
        {
            let mut field = self.fields.replace_at(k, blank_field());
            field.modifiers = low_byte_of(answer.fields[k]);
            let _ = self.fields.replace_at(k, field);
            k += 1;
        }
        assert(self@.fields =~= enriched_class(before, *answer).fields);
        true
    }
}

impl Mappings {
    /// Whether there is an answer of the right shape for each class.
    pub fn fits(&self, answers: &Vec<ClassModifiers>) -> (r: bool)
        ensures
            r == answers_fit(self@, answers@),
    {
        if answers.len() != self.mapped_map.len() {
            return false;
        }
        let mut i: usize = 0;
        while i < answers.len()
            invariant
                i <= answers.len(),
                answers@.len() == self@.mapped_map.len(),
                forall|k: int|
                    0 <= k < i ==> class_fits((#[trigger] self@.mapped_map[k]).1, answers@[k]),
            decreases answers.len() - i,
        {
            if !self.mapped_map.value_at(i).fits(&answers[i]) {
                return false;
            }
            i += 1;
        }
        true
    }

    /// The enrichment pass: takes over the modifier sets that the outside
    /// answered for every method, argument and field. Either every class
    /// takes its answer, or, where the answers do not have the shape of the
    /// index, the index stays as it is.
    pub fn set_modifiers(&mut self, answers: &Vec<ClassModifiers>) -> (done: bool)
        ensures
            done == answers_fit(old(self)@, answers@),
            done ==> final(self)@ == enriched(
                old(self)@,
                answers@,
                old(self)@.mapped_map.len() as int,
            ),
            !done ==> final(self)@ == old(self)@,
            aliases_resolve(old(self)@) ==> aliases_resolve(final(self)@),
    {
        if !self.fits(answers) {
            return false;
        }
        let ghost before = self@;
        let n = self.mapped_map.len();
        let mut i: usize = 0;
        assert(self@.mapped_map =~= enriched(before, answers@, 0).mapped_map);
        while i < n
            invariant
                i <= n,
                n == before.mapped_map.len(),
                answers_fit(before, answers@),
                self@ == enriched(before, answers@, i as int),
            decreases n - i,
        {
            let mut class = self.mapped_map.replace_at(i, Class::new(String::new(), String::new()));
            assert(class@ == before.mapped_map[i as int].1);
            let _ = class.set_modifiers(&answers[i]);
            let _ = self.mapped_map.replace_at(i, class);
            i += 1;
            assert(self@.mapped_map =~= enriched(before, answers@, i as int).mapped_map);
        }
        proof {
            lemma_enriched_keeps_aliases(before, answers@);
        }
        true
    }
}

/// Enrichment keeps every intermediary name leading to a class.
pub proof fn lemma_enriched_keeps_aliases(m: MappingsView, answers: Seq<ClassModifiers>)
    ensures
        aliases_resolve(m) ==> aliases_resolve(enriched(m, answers, m.mapped_map.len() as int)),
{
    let after = enriched(m, answers, m.mapped_map.len() as int);
    if aliases_resolve(m) {
        assert forall|i: int| 0 <= i < after.intermediary_map.len() implies lookup(
            after.mapped_map,
            (#[trigger] after.intermediary_map[i]).1,
        ).is_some() by {
            lemma_same_names(m.mapped_map, after.mapped_map, m.intermediary_map[i].1);
        }
    }
}

} // verus!
