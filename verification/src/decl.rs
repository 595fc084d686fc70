use vstd::prelude::*;

verus! {

/// A function parameter as delivered by the front-end parser: the bound name
/// (absent for any binding pattern that is not a simple name), the canonical
/// whitespace-free type expression, and documentation lines.
#[derive(Debug, Clone, PartialEq)]
pub struct SrcParam {
    pub name: Option<String>,
    pub ty: String,
    pub comments: Vec<String>,
}

/// Mathematical value of a source parameter.
pub struct SrcParamV {
    pub name: Option<Seq<char>>,
    pub ty: Seq<char>,
    pub comments: Seq<Seq<char>>,
}

impl View for SrcParam {
    type V = SrcParamV;

    open spec fn view(&self) -> SrcParamV {
        SrcParamV {
            name: match self.name {
                Some(ref n) => Some(n@),
                Option::None => Option::None,
            },
            ty: self.ty@,
            comments: self.comments@.map_values(|c: String| c@),
        }
    }
}

/// A struct field as delivered by the front-end parser: the field name
/// (absent for positional fields), the canonical type expression, and
/// documentation lines.
#[derive(Debug, Clone, PartialEq)]
pub struct SrcField {
    pub name: Option<String>,
    pub ty: String,
    pub comments: Vec<String>,
}

/// Mathematical value of a source field.
pub struct SrcFieldV {
    pub name: Option<Seq<char>>,
    pub ty: Seq<char>,
    pub comments: Seq<Seq<char>>,
}

impl View for SrcField {
    type V = SrcFieldV;

    open spec fn view(&self) -> SrcFieldV {
        SrcFieldV {
            name: match self.name {
                Some(ref n) => Some(n@),
                Option::None => Option::None,
            },
            ty: self.ty@,
            comments: self.comments@.map_values(|c: String| c@),
        }
    }
}

/// The container shape of a struct's fields: fully named, fully positional,
/// or anything else (which the core rejects).
#[derive(Clone, Copy, Debug, PartialEq, Eq, Structural)]
pub enum SrcFieldsKind {
    Named,
    Unnamed,
    Unsupported,
}

/// A top-level struct declaration.
#[derive(Debug, Clone, PartialEq)]
pub struct SrcStruct {
    pub name: String,
    pub fields: Vec<SrcField>,
    pub fields_kind: SrcFieldsKind,
    pub comments: Vec<String>,
}

/// Mathematical value of a source struct declaration.
pub struct SrcStructV {
    pub name: Seq<char>,
    pub fields: Seq<SrcFieldV>,
    pub fields_kind: SrcFieldsKind,
    pub comments: Seq<Seq<char>>,
}

impl View for SrcStruct {
    type V = SrcStructV;

    open spec fn view(&self) -> SrcStructV {
        SrcStructV {
            name: self.name@,
            fields: self.fields@.map_values(|f: SrcField| f@),
            fields_kind: self.fields_kind,
            comments: self.comments@.map_values(|c: String| c@),
        }
    }
}

/// A top-level function declaration: name, parameters in order, the declared
/// return-type expression (absent when none is written), and documentation.
#[derive(Debug, Clone, PartialEq)]
pub struct SrcFn {
    pub name: String,
    pub params: Vec<SrcParam>,
    pub ret: Option<String>,
    pub comments: Vec<String>,
}

/// Mathematical value of a source function declaration.
pub struct SrcFnV {
    pub name: Seq<char>,
    pub params: Seq<SrcParamV>,
    pub ret: Option<Seq<char>>,
    pub comments: Seq<Seq<char>>,
}

impl View for SrcFn {
    type V = SrcFnV;

    open spec fn view(&self) -> SrcFnV {
        SrcFnV {
            name: self.name@,
            params: self.params@.map_values(|p: SrcParam| p@),
            ret: match self.ret {
                Some(ref r) => Some(r@),
                Option::None => Option::None,
            },
            comments: self.comments@.map_values(|c: String| c@),
        }
    }
}

/// One top-level declaration the extractor looks at.
#[derive(Debug, Clone, PartialEq)]
pub enum SrcDecl {
    Fn(SrcFn),
    Struct(SrcStruct),
}

/// One top-level item: its visibility and its declaration.
#[derive(Debug, Clone, PartialEq)]
pub struct SrcItem {
    pub is_public: bool,
    pub decl: SrcDecl,
}

} // verus!
