use vstd::prelude::*;

verus! {

/// A raw typedef fragment, tagged by the shape that matched it.
#[derive(Debug, PartialEq, Eq, Clone)]
pub enum RawTypedef {
    Struct(String),
    Array(String),
    Normal(String),
}

/// The mathematical form of a raw fragment.
pub ghost enum RawTypedefView {
    Struct(Seq<char>),
    Array(Seq<char>),
    Normal(Seq<char>),
}

impl View for RawTypedef {
    type V = RawTypedefView;

    open spec fn view(&self) -> RawTypedefView {
        match self {
            RawTypedef::Struct(s) => RawTypedefView::Struct(s@),
            RawTypedef::Array(s) => RawTypedefView::Array(s@),
            RawTypedef::Normal(s) => RawTypedefView::Normal(s@),
        }
    }
}

/// A member declaration inside a struct body.
#[derive(Debug, PartialEq, Eq, Clone)]
pub enum Declaration {
    Pointer { name: String, data_type: String },
    Array { name: String, data_type: String, size: usize },
    Normal { name: String, data_type: String },
}

/// The mathematical form of a member declaration.
pub ghost enum DeclarationView {
    Pointer { name: Seq<char>, data_type: Seq<char> },
    Array { name: Seq<char>, data_type: Seq<char>, size: nat },
    Normal { name: Seq<char>, data_type: Seq<char> },
}

impl View for Declaration {
    type V = DeclarationView;

    open spec fn view(&self) -> DeclarationView {
        match self {
            Declaration::Pointer { name, data_type } => DeclarationView::Pointer {
                name: name@,
                data_type: data_type@,
            },
            Declaration::Array { name, data_type, size } => DeclarationView::Array {
                name: name@,
                data_type: data_type@,
                size: *size as nat,
            },
            Declaration::Normal { name, data_type } => DeclarationView::Normal {
                name: name@,
                data_type: data_type@,
            },
        }
    }
}

/// The views of a list of declarations.
pub open spec fn declarations_view(ds: Seq<Declaration>) -> Seq<DeclarationView> {
    ds.map_values(|d: Declaration| d@)
}

/// A structured typedef.
#[derive(Debug, PartialEq, Eq, Clone)]
pub enum Typedef {
    Struct { alias: String, data_type: String, elements: Vec<Declaration> },
    Array { alias: String, data_type: String, size: usize },
    Normal { alias: String, data_type: String },
}

/// The mathematical form of a typedef.
pub ghost enum TypedefView {
    Struct { alias: Seq<char>, data_type: Seq<char>, elements: Seq<DeclarationView> },
    Array { alias: Seq<char>, data_type: Seq<char>, size: nat },
    Normal { alias: Seq<char>, data_type: Seq<char> },
}

impl View for Typedef {
    type V = TypedefView;

    open spec fn view(&self) -> TypedefView {
        match self {
            Typedef::Struct { alias, data_type, elements } => TypedefView::Struct {
                alias: alias@,
                data_type: data_type@,
                elements: declarations_view(elements@),
            },
            Typedef::Array { alias, data_type, size } => TypedefView::Array {
                alias: alias@,
                data_type: data_type@,
                size: *size as nat,
            },
            Typedef::Normal { alias, data_type } => TypedefView::Normal {
                alias: alias@,
                data_type: data_type@,
            },
        }
    }
}

impl TypedefView {
    /// The name that the typedef introduces.
    pub open spec fn alias(self) -> Seq<char> {
        match self {
            TypedefView::Struct { alias, .. } => alias,
            TypedefView::Array { alias, .. } => alias,
            TypedefView::Normal { alias, .. } => alias,
        }
    }
}

/// The view of a typedef database.
pub open spec fn database_view(db: Seq<Typedef>) -> Seq<TypedefView> {
    db.map_values(|t: Typedef| t@)
}

/// Why a stage of the pipeline failed.
#[derive(Debug, PartialEq, Eq, Clone)]
pub enum TypedefError {
    /// A fragment did not match the pattern of its own shape.
    PatternMismatch { pattern: String, text: String },
    /// No typedef introduces the alias.
    AliasNotFound { alias: String },
    /// More than one typedef introduces the alias.
    AmbiguousAlias { alias: String },
    /// A struct member is a pointer or a raw array.
    UnsupportedDeclaration { name: String },
    /// The alias reappears on its own resolution path.
    CycleDetected { alias: String },
}

/// The mathematical form of an error.
pub ghost enum ErrorView {
    PatternMismatch { pattern: Seq<char>, text: Seq<char> },
    AliasNotFound { alias: Seq<char> },
    AmbiguousAlias { alias: Seq<char> },
    UnsupportedDeclaration { name: Seq<char> },
    CycleDetected { alias: Seq<char> },
}

impl View for TypedefError {
    type V = ErrorView;

    open spec fn view(&self) -> ErrorView {
        match self {
            TypedefError::PatternMismatch { pattern, text } => ErrorView::PatternMismatch {
                pattern: pattern@,
                text: text@,
            },
            TypedefError::AliasNotFound { alias } => ErrorView::AliasNotFound { alias: alias@ },
            TypedefError::AmbiguousAlias { alias } => ErrorView::AmbiguousAlias { alias: alias@ },
            TypedefError::UnsupportedDeclaration { name } => ErrorView::UnsupportedDeclaration {
                name: name@,
            },
            TypedefError::CycleDetected { alias } => ErrorView::CycleDetected { alias: alias@ },
        }
    }
}

} // verus!
