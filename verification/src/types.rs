//! The kinds of type an option can be declared with.

use vstd::prelude::*;
use vstd::string::StringExecFns;
use crate::strings::{
    chars_of, contains_in, contains_text, join, join_strings, push_text, same_chars, texts_of,
};

verus! {

/// The kind of type an option is declared with.
///
/// Classification goes by the text of the type expression. The compound
/// kinds are recognised, but what they hold is not read from the text.
#[derive(Debug)]
pub enum NixType {
    Bool,
    Int,
    Float,
    Str,
    Path,
    Enum(Vec<String>),
    Attrs,
    List,
    SetOf,
    Option(Box<NixType>),
    Either(Vec<Box<NixType>>),
    Unknown(String),
}

/// What a `NixType` stands for.
pub ghost enum TypeKind {
    Bool,
    Int,
    Float,
    Str,
    Path,
    Enum(Seq<Seq<char>>),
    Attrs,
    List,
    SetOf,
    Option(Box<TypeKind>),
    Either(Seq<TypeKind>),
    Unknown(Seq<char>),
}

/// The kinds that a sequence of boxed types stands for, one for one.
pub open spec fn kinds_of(types: Seq<Box<NixType>>) -> Seq<TypeKind>
    decreases types,
{
    if types.len() == 0 {
        Seq::empty()
    } else {
        kinds_of(types.drop_last()).push((*types.last()).view())
    }
}

impl View for NixType {
    type V = TypeKind;

    open spec fn view(&self) -> TypeKind
        decreases self,
    {
        match self {
            NixType::Bool => TypeKind::Bool,
            NixType::Int => TypeKind::Int,
            NixType::Float => TypeKind::Float,
            NixType::Str => TypeKind::Str,
            NixType::Path => TypeKind::Path,
            NixType::Enum(values) => TypeKind::Enum(texts_of(values@)),
            NixType::Attrs => TypeKind::Attrs,
            NixType::List => TypeKind::List,
            NixType::SetOf => TypeKind::SetOf,
            NixType::Option(inner) => TypeKind::Option(Box::new((**inner).view())),
            NixType::Either(types) => TypeKind::Either(kinds_of(types@)),
            NixType::Unknown(raw) => TypeKind::Unknown(raw@),
        }
    }
}

/// `kinds_of` keeps the length and maps position by position.
pub proof fn lemma_kinds_of(types: Seq<Box<NixType>>)
    ensures
        kinds_of(types).len() == types.len(),
        forall|i: int| 0 <= i < types.len() ==> #[trigger] kinds_of(types)[i] == (*types[i]).view(),
    decreases types.len(),
{
    if types.len() > 0 {
        lemma_kinds_of(types.drop_last());
        assert(kinds_of(types) == kinds_of(types.drop_last()).push((*types.last()).view()));
    } else {
        assert(kinds_of(types) == Seq::<TypeKind>::empty());
    }
}


/// The kind that the text of a type expression is classified as.
///
/// The primitive expressions are matched as a whole. The compound forms are
/// found anywhere in the text, and what they hold is a fixed stand-in.
/// Any other text is kept as it is.
pub open spec fn classified(text: Seq<char>) -> TypeKind {
    if text == "types.bool"@ {
        TypeKind::Bool
    } else if text == "types.int"@ || text == "types.integer"@ {
        TypeKind::Int
    } else if text == "types.float"@ {
        TypeKind::Float
    } else if text == "types.str"@ || text == "types.string"@ {
        TypeKind::Str
    } else if text == "types.path"@ {
        TypeKind::Path
    } else if text == "types.attrs"@ {
        TypeKind::Attrs
    } else if text == "types.listOf"@ {
        TypeKind::List
    } else if contains_text(text, "types.enum"@) {
        TypeKind::Enum(seq!["..."@])
    } else if contains_text(text, "types.option"@) {
        TypeKind::Option(Box::new(TypeKind::Unknown(Seq::empty())))
    } else if contains_text(text, "types.either"@) {
        TypeKind::Either(Seq::empty())
    } else {
        TypeKind::Unknown(text)
    }
}

/// The fixed text that a kind is shown as.
pub open spec fn display(kind: TypeKind) -> Seq<char>
    decreases kind,
{
    match kind {
        TypeKind::Bool => "boolean"@,
        TypeKind::Int => "integer"@,
        TypeKind::Float => "float"@,
        TypeKind::Str => "string"@,
        TypeKind::Path => "path"@,
        TypeKind::Enum(values) => if values.len() == 0 {
            "enum"@
        } else {
            "enum: ["@ + join(values, ", "@) + "]"@
        },
        TypeKind::Attrs => "attribute set"@,
        TypeKind::List => "list"@,
        TypeKind::SetOf => "set"@,
        TypeKind::Option(inner) => "optional "@ + display(*inner),
        TypeKind::Either(kinds) => if kinds.len() == 0 {
            "either"@
        } else {
            "either: ["@ + join(displays(kinds), ", "@) + "]"@
        },
        TypeKind::Unknown(raw) => raw,
    }
}

/// What each kind of `kinds` is shown as, one for one.
pub open spec fn displays(kinds: Seq<TypeKind>) -> Seq<Seq<char>>
    decreases kinds,
{
    if kinds.len() == 0 {
        Seq::empty()
    } else {
        displays(kinds.drop_last()).push(display(kinds.last()))
    }
}

impl NixType {
    /// Classifies the text of a type expression.
    pub fn from_nix_str(type_str: &str) -> (kind: NixType)
        ensures
            kind@ == classified(type_str@),
    {
        let text = chars_of(type_str);
        if same_chars(&text, &chars_of("types.bool")) {
            NixType::Bool
        } else if same_chars(&text, &chars_of("types.int")) || same_chars(
            &text,
            &chars_of("types.integer"),
        ) {
            NixType::Int
        } else if same_chars(&text, &chars_of("types.float")) {
            NixType::Float
        } else if same_chars(&text, &chars_of("types.str")) || same_chars(
            &text,
            &chars_of("types.string"),
        ) {
            NixType::Str
        } else if same_chars(&text, &chars_of("types.path")) {
            NixType::Path
        } else if same_chars(&text, &chars_of("types.attrs")) {
            NixType::Attrs
        } else if same_chars(&text, &chars_of("types.listOf")) {
            NixType::List
        } else if contains_in(&text, &chars_of("types.enum")) {
            let mut values: Vec<String> = Vec::new();
            push_text(&mut values, String::from_str("..."));
            assert(texts_of(values@) =~= seq!["..."@]);
            NixType::Enum(values)
        } else if contains_in(&text, &chars_of("types.option")) {
            let inner = NixType::Unknown(String::new());
            assert(inner@ == TypeKind::Unknown(Seq::empty()));
            NixType::Option(Box::new(inner))
        } else if contains_in(&text, &chars_of("types.either")) {
            let kinds: Vec<Box<NixType>> = Vec::new();
            assert(kinds_of(kinds@) =~= Seq::<TypeKind>::empty());
            NixType::Either(kinds)
        } else {
            NixType::Unknown(String::from_str(type_str))
        }
    }

    /// The fixed text that this kind is shown as.
    pub fn to_string(&self) -> (out: String)
        ensures
            out@ == display(self@),
        decreases self,
    {
        match self {
            NixType::Bool => String::from_str("boolean"),
            NixType::Int => String::from_str("integer"),
            NixType::Float => String::from_str("float"),
            NixType::Str => String::from_str("string"),
            NixType::Path => String::from_str("path"),
            NixType::Enum(values) => {
                if values.len() == 0 {
                    String::from_str("enum")
                } else {
                    let mut out = String::from_str("enum: [");
                    let inner = join_strings(values, ", ");
                    out.append(inner.as_str());
                    out.append("]");
                    out
                }
            },
            NixType::Attrs => String::from_str("attribute set"),
            NixType::List => String::from_str("list"),
            NixType::SetOf => String::from_str("set"),
            NixType::Option(inner) => {
                let mut out = String::from_str("optional ");
                let shown = (**inner).to_string();
                out.append(shown.as_str());
                out
            },
            NixType::Either(types) => {
                if types.len() == 0 {
                    proof {
                        lemma_kinds_of(types@);
                    }
                    String::from_str("either")
                } else {
                    let mut shown: Vec<String> = Vec::new();
                    let mut i: usize = 0;
                    while i < types.len()
                        invariant
                            self is Either,
                            self->Either_0 == *types,
                            i <= types.len(),
                            texts_of(shown@) == displays(kinds_of(types@).take(i as int)),
                        decreases types.len() - i,
                    {
                        proof {
                            lemma_kinds_of(types@);
                            let kinds = kinds_of(types@);
                            assert(kinds.take(i + 1).drop_last() =~= kinds.take(i as int));
                        }
                        let one = (*types[i]).to_string();
                        shown.push(one);
                        i += 1;
                    }
                    proof {
                        lemma_kinds_of(types@);
                        assert(kinds_of(types@).take(types.len() as int) =~= kinds_of(types@));
                    }
                    let mut out = String::from_str("either: [");
                    let inner = join_strings(&shown, ", ");
                    out.append(inner.as_str());
                    out.append("]");
                    out
                }
            },
            NixType::Unknown(raw) => raw.clone(),
        }
    }
}

impl Clone for NixType {
    fn clone(&self) -> (copy: Self)
        ensures
            copy@ == self@,
        decreases self,
    {
        match self {
            NixType::Bool => NixType::Bool,
            NixType::Int => NixType::Int,
            NixType::Float => NixType::Float,
            NixType::Str => NixType::Str,
            NixType::Path => NixType::Path,
            NixType::Enum(values) => {
                let mut copies: Vec<String> = Vec::new();
                let mut i: usize = 0;
                while i < values.len()
                    invariant
                        i <= values.len(),
                        texts_of(copies@) == texts_of(values@).take(i as int),
                    decreases values.len() - i,
                {
                    push_text(&mut copies, values[i].clone());
                    i += 1;
                }
                assert(texts_of(values@).take(values.len() as int) =~= texts_of(values@));
                NixType::Enum(copies)
            },
            NixType::Attrs => NixType::Attrs,
            NixType::List => NixType::List,
            NixType::SetOf => NixType::SetOf,
            NixType::Option(inner) => NixType::Option(Box::new((**inner).clone())),
            NixType::Either(types) => {
                let mut copies: Vec<Box<NixType>> = Vec::new();
                let mut i: usize = 0;
                while i < types.len()
                    invariant
                        self is Either,
                        self->Either_0 == *types,
                        i <= types.len(),
                        kinds_of(copies@) == kinds_of(types@).take(i as int),
                    decreases types.len() - i,
                {
                    proof {
                        lemma_kinds_of(types@);
                    }
                    let one = (*types[i]).clone();
                    let ghost before = copies@;
                    copies.push(Box::new(one));
                    proof {
                        assert(copies@.drop_last() =~= before);
                        assert(kinds_of(copies@) == kinds_of(copies@.drop_last()).push(
                            (*copies@.last()).view(),
                        ));
                    }
                    i += 1;
                }
                proof {
                    assert(kinds_of(types@).take(types.len() as int) =~= kinds_of(types@)) by {
                        lemma_kinds_of(types@);
                    }
                }
                NixType::Either(copies)
            },
            NixType::Unknown(raw) => NixType::Unknown(raw.clone()),
        }
    }
}

} // verus!
