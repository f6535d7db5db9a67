//! The canonical type algebra shared by every adapter and emitter.

use vstd::prelude::*;

verus! {

/// A leaf type.
#[derive(Debug, PartialEq, Eq)]
pub enum Primitive {
    String,
    Boolean,
    Integer,
    Float,
    Double,
}

impl Clone for Primitive {
    fn clone(&self) -> (res: Self)
        ensures
            res == *self,
    {
        match self {
            Primitive::String => Primitive::String,
            Primitive::Boolean => Primitive::Boolean,
            Primitive::Integer => Primitive::Integer,
            Primitive::Float => Primitive::Float,
            Primitive::Double => Primitive::Double,
        }
    }
}

/// A type of the generated SDK.
///
/// `Union` and `Record` are the named variants; the others are only ever
/// referenced structurally.
#[derive(Debug, PartialEq, Eq)]
pub enum Type {
    Primitive(Primitive),
    Array(Box<Type>),
    Mapping { key: Box<Type>, value: Box<Type> },
    Union { name: String, cases: Vec<String> },
    Record { name: String, members: Vec<Member> },
}

/// A field of a record.
#[derive(Debug, PartialEq, Eq)]
pub struct Member {
    pub name: String,
    pub description: Option<String>,
    pub ty: Type,
    pub is_optional: bool,
}

/// The mathematical value of a [`Type`]: names are character sequences and
/// collections are sequences.
pub enum TypeModel {
    Primitive(Primitive),
    Array(Box<TypeModel>),
    Mapping { key: Box<TypeModel>, value: Box<TypeModel> },
    Union { name: Seq<char>, cases: Seq<Seq<char>> },
    Record { name: Seq<char>, members: Seq<MemberModel> },
}

/// The mathematical value of a [`Member`].
pub struct MemberModel {
    pub name: Seq<char>,
    pub description: Option<Seq<char>>,
    pub ty: TypeModel,
    pub is_optional: bool,
}

impl Type {
    /// The value this type stands for.
    pub open spec fn model(self) -> TypeModel
        decreases self,
    {
        match self {
            Type::Primitive(p) => TypeModel::Primitive(p),
            Type::Array(element) => TypeModel::Array(Box::new(element.model())),
            Type::Mapping { key, value } => TypeModel::Mapping {
                key: Box::new(key.model()),
                value: Box::new(value.model()),
            },
            Type::Union { name, cases } => TypeModel::Union {
                name: name@,
                cases: Seq::new(cases@.len(), |i: int| cases@[i]@),
            },
            Type::Record { name, members } => TypeModel::Record {
                name: name@,
                members: Seq::new(
                    members@.len(),
                    |i: int|
                        if 0 <= i < members@.len() {
                            members@[i].model()
                        } else {
                            arbitrary()
                        },
                ),
            },
        }
    }
}

impl Member {
    /// The value this member stands for.
    pub open spec fn model(self) -> MemberModel
        decreases self,
    {
        MemberModel {
            name: self.name@,
            description: match self.description {
                Some(d) => Some(d@),
                None => None,
            },
            ty: self.ty.model(),
            is_optional: self.is_optional,
        }
    }
}

impl View for Type {
    type V = TypeModel;

    open spec fn view(&self) -> TypeModel {
        self.model()
    }
}

impl DeepView for Type {
    type V = TypeModel;

    open spec fn deep_view(&self) -> TypeModel {
        self.model()
    }
}

impl View for Member {
    type V = MemberModel;

    open spec fn view(&self) -> MemberModel {
        self.model()
    }
}

impl DeepView for Member {
    type V = MemberModel;

    open spec fn deep_view(&self) -> MemberModel {
        self.model()
    }
}

impl TypeModel {
    /// The declared name: only unions and records carry one.
    pub open spec fn name(self) -> Option<Seq<char>> {
        match self {
            TypeModel::Union { name, .. } => Some(name),
            TypeModel::Record { name, .. } => Some(name),
            _ => None,
        }
    }

    /// The same type under another name; unnamed variants are left as they are.
    pub open spec fn with_name(self, new_name: Seq<char>) -> TypeModel {
        match self {
            TypeModel::Union { name, cases } => TypeModel::Union { name: new_name, cases },
            TypeModel::Record { name, members } => TypeModel::Record { name: new_name, members },
            _ => self,
        }
    }

    /// Every type nested in this one, in pre-order: an array's element, a
    /// mapping's key and value, and each record member's type, each followed by
    /// what it nests in turn. Union cases are labels and nest nothing.
    pub open spec fn referenced_types(self) -> Seq<TypeModel>
        decreases self,
    {
        match self {
            TypeModel::Primitive(_) => Seq::empty(),
            TypeModel::Union { .. } => Seq::empty(),
            TypeModel::Array(element) => seq![*element] + element.referenced_types(),
            TypeModel::Mapping { key, value } => seq![*key, *value] + key.referenced_types()
                + value.referenced_types(),
            TypeModel::Record { members, .. } => members_referenced_types(members),
        }
    }
}

/// The types nested in a record's members: for each member in order, its type
/// and then what that type nests.
pub open spec fn members_referenced_types(members: Seq<MemberModel>) -> Seq<TypeModel>
    decreases members,
{
    if members.len() == 0 {
        Seq::empty()
    } else {
        members_referenced_types(members.drop_last()) + seq![members.last().ty]
            + members.last().ty.referenced_types()
    }
}

/// A record's model holds the models of its members, in order.
pub proof fn lemma_record_members(name: String, members: Vec<Member>)
    ensures
        (Type::Record { name, members })@ == (TypeModel::Record {
            name: name@,
            members: members.deep_view(),
        }),
{
    let t = Type::Record { name, members };
    assert(t@->Record_members =~= members.deep_view());
}

/// A union's model holds its case labels, in order.
pub proof fn lemma_union_cases(name: String, cases: Vec<String>)
    ensures
        (Type::Union { name, cases })@ == (TypeModel::Union {
            name: name@,
            cases: cases.deep_view(),
        }),
{
    let t = Type::Union { name, cases };
    assert(t@->Union_cases =~= cases.deep_view());
}

/// Copies a list of strings.
fn clone_strings(strings: &Vec<String>) -> (res: Vec<String>)
    ensures
        res.deep_view() == strings.deep_view(),
{
    let mut out: Vec<String> = Vec::new();
    let mut i: usize = 0;
    while i < strings.len()
        invariant
            i <= strings.len(),
            out.len() == i,
            forall|j: int| 0 <= j < i ==> out@[j]@ == strings@[j]@,
        decreases strings.len() - i,
    {
        out.push(strings[i].clone());
        i += 1;
    }
    assert(out.deep_view() =~= strings.deep_view());
    out
}

impl Clone for Member {
    fn clone(&self) -> (res: Self)
        ensures
            res@ == self@,
        decreases self,
    {
        Member {
            name: self.name.clone(),
            description: match &self.description {
                Some(d) => Some(d.clone()),
                None => None,
            },
            ty: self.ty.clone(),
            is_optional: self.is_optional,
        }
    }
}

impl Clone for Type {
    fn clone(&self) -> (res: Self)
        ensures
            res@ == self@,
        decreases self,
    {
        match self {
            Type::Primitive(p) => Type::Primitive(p.clone()),
            Type::Array(element) => Type::Array(Box::new((&**element).clone())),
            Type::Mapping { key, value } => Type::Mapping {
                key: Box::new((&**key).clone()),
                value: Box::new((&**value).clone()),
            },
            Type::Union { name, cases } => {
                let copy = clone_strings(cases);
                proof {
                    lemma_union_cases(*name, *cases);
                    lemma_union_cases(*name, copy);
                }
                Type::Union { name: name.clone(), cases: copy }
            },
            Type::Record { name, members } => {
                let mut copy: Vec<Member> = Vec::new();
                let mut i: usize = 0;
                while i < members.len()
                    invariant
                        i <= members.len(),
                        copy.len() == i,
                        forall|j: int| 0 <= j < i ==> copy@[j]@ == members@[j]@,
                        decreases_to!(self => members),
                    decreases members.len() - i,
                {
                    copy.push(members[i].clone());
                    i += 1;
                }
                proof {
                    assert(copy.deep_view() =~= members.deep_view());
                    lemma_record_members(*name, *members);
                    lemma_record_members(*name, copy);
                }
                Type::Record { name: name.clone(), members: copy }
            },
        }
    }
}

impl Type {
    /// The declared name, for a union or a record.
    pub fn name(&self) -> (res: Option<&str>)
        ensures
            res.deep_view() == self@.name(),
    {
        match self {
            Type::Union { name, .. } => Some(name.as_str()),
            Type::Record { name, .. } => Some(name.as_str()),
            Type::Primitive(_) => None,
            Type::Array(_) => None,
            Type::Mapping { .. } => None,
        }
    }

    /// Renames a union or a record; any other type is returned unchanged.
    pub fn set_name(self, name: String) -> (res: Self)
        ensures
            res@ == self@.with_name(name@),
    {
        match self {
            Type::Union { name: _, cases } => {
                proof {
                    lemma_union_cases(name, cases);
                }
                Type::Union { name, cases }
            },
            Type::Record { name: _, members } => {
                proof {
                    lemma_record_members(name, members);
                }
                Type::Record { name, members }
            },
            other => other,
        }
    }

    /// Lists every type nested in this one, in pre-order.
    pub fn referenced_types(&self) -> (res: Vec<Type>)
        ensures
            res.deep_view() == self@.referenced_types(),
        decreases self,
    {
        let mut referenced: Vec<Type> = Vec::new();
        match self {
            Type::Primitive(_) => {
                assert(referenced.deep_view() =~= self@.referenced_types());
            },
            Type::Union { .. } => {
                assert(referenced.deep_view() =~= self@.referenced_types());
            },
            Type::Array(element) => {
                referenced.push((&**element).clone());
                let mut nested = element.referenced_types();
                let ghost nested_model = nested.deep_view();
                referenced.append(&mut nested);
                assert(referenced.deep_view() =~= seq![element@] + nested_model);
            },
            Type::Mapping { key, value } => {
                referenced.push((&**key).clone());
                referenced.push((&**value).clone());
                let mut of_key = key.referenced_types();
                let mut of_value = value.referenced_types();
                let ghost key_model = of_key.deep_view();
                let ghost value_model = of_value.deep_view();
                referenced.append(&mut of_key);
                referenced.append(&mut of_value);
                assert(referenced.deep_view() =~= seq![key@, value@] + key_model + value_model);
            },
            Type::Record { name, members } => {
                let mut i: usize = 0;
                proof {
                    lemma_record_members(*name, *members);
                    assert(members.deep_view().take(0) =~= Seq::<MemberModel>::empty());
                    assert(referenced.deep_view() =~= Seq::<TypeModel>::empty());
                }
                while i < members.len()
                    invariant
                        i <= members.len(),
                        referenced.deep_view() == members_referenced_types(
                            members.deep_view().take(i as int),
                        ),
                        decreases_to!(self => members),
                    decreases members.len() - i,
                {
                    let ghost before = referenced.deep_view();
                    referenced.push(members[i].ty.clone());
                    let mut nested = members[i].ty.referenced_types();
                    let ghost nested_model = nested.deep_view();
                    referenced.append(&mut nested);
                    proof {
                        let prefix = members.deep_view().take(i as int + 1);
                        assert(prefix.drop_last() =~= members.deep_view().take(i as int));
                        assert(prefix.last() == members@[i as int]@);
                        assert(referenced.deep_view() =~= before + seq![members@[i as int].ty@]
                            + nested_model);
                    }
                    i += 1;
                }
                assert(members.deep_view().take(i as int) =~= members.deep_view());
            },
        }
        referenced
    }
}

} // verus!
