//! Plain data model produced by the Java parser.

use vstd::prelude::*;

verus! {

/// The five kinds of Java type declarations.
#[derive(Debug, Clone, Copy, PartialEq, Eq, Structural, PartialOrd, Ord)]
pub enum TypeKind {
    Class,
    Interface,
    Enum,
    Record,
    Annotation,
}

/// Java's eight primitive types.
#[derive(Debug, Clone, Copy, PartialEq, Eq, Structural)]
pub enum JavaPrimitiveType {
    Boolean,
    Byte,
    Short,
    Int,
    Long,
    Char,
    Float,
    Double,
}

/// A structured Java type reference.
#[derive(Debug)]
pub enum JavaTypeRef {
    Primitive(JavaPrimitiveType),
    Void,
    Reference(JavaReferenceType),
    Array { element: Box<JavaTypeRef>, dimensions: usize },
    Wildcard { annotations: Vec<JavaAnnotation>, bound: Option<JavaWildcardBound> },
    Annotated { annotations: Vec<JavaAnnotation>, inner: Box<JavaTypeRef> },
    Unsupported { kind: String, text: String },
}

/// A named (possibly qualified, possibly generic) class or interface type.
///
/// `resolved_fqn` is filled in by cross-file resolution when the referenced
/// type belongs to the parsed file set.
#[derive(Debug)]
pub struct JavaReferenceType {
    pub name: String,
    pub qualifier: Option<Box<JavaTypeRef>>,
    pub args: Vec<JavaTypeArgument>,
    pub resolved_fqn: Option<String>,
}

/// One argument of a generic type.
#[derive(Debug)]
pub enum JavaTypeArgument {
    Type(JavaTypeRef),
    Wildcard(JavaTypeRef),
}

/// The bound of a `?` wildcard.
#[derive(Debug)]
pub enum JavaWildcardBound {
    Extends(Box<JavaTypeRef>),
    Super(Box<JavaTypeRef>),
}

/// An annotation use such as `@Size(max = 20)`.
#[derive(Debug)]
pub struct JavaAnnotation {
    pub name: String,
    pub arguments: Vec<JavaAnnotationArgument>,
}

/// One argument inside an annotation's parentheses.
#[derive(Debug)]
pub enum JavaAnnotationArgument {
    Named { name: String, value: JavaAnnotationValue },
    Default(JavaAnnotationValue),
}

/// The value of an annotation argument or of an annotation element default.
#[derive(Debug)]
pub enum JavaAnnotationValue {
    String(String),
    Char(String),
    Number(String),
    Boolean(bool),
    Null,
    Annotation(JavaAnnotation),
    Array(Vec<JavaAnnotationValue>),
    ClassLiteral(JavaTypeRef),
    Reference(String),
    Expression(String),
    Unsupported { kind: String, text: String },
}

/// A generic type parameter such as `T extends Comparable<T>`.
#[derive(Debug)]
pub struct JavaTypeParameter {
    pub annotations: Vec<JavaAnnotation>,
    pub name: String,
    pub bounds: Vec<JavaTypeRef>,
}

/// One block tag of a Javadoc comment, such as `@param id user id`.
#[derive(Debug)]
pub struct JavaDocTag {
    pub name: String,
    pub text: String,
}

/// A leading Javadoc comment split into its description and block tags.
#[derive(Debug)]
pub struct JavaDoc {
    pub description: String,
    pub tags: Vec<JavaDocTag>,
}

/// A method, constructor, or record component parameter.
#[derive(Debug)]
pub struct JavaArgument {
    pub annotations: Vec<JavaAnnotation>,
    pub ty: JavaTypeRef,
    pub name: String,
    pub varargs: bool,
}

/// A field declaration (one per declarator).
#[derive(Debug)]
pub struct JavaField {
    pub documentation: Option<JavaDoc>,
    pub annotations: Vec<JavaAnnotation>,
    pub modifiers: Vec<String>,
    pub ty: JavaTypeRef,
    pub name: String,
    pub range: (usize, usize),
}

/// A constructor declaration.
#[derive(Debug)]
pub struct JavaConstructor {
    pub documentation: Option<JavaDoc>,
    pub annotations: Vec<JavaAnnotation>,
    pub modifiers: Vec<String>,
    pub type_parameters: Vec<JavaTypeParameter>,
    pub name: String,
    pub args: Vec<JavaArgument>,
    pub throws: Vec<JavaTypeRef>,
    pub range: (usize, usize),
}

/// A method declaration.
#[derive(Debug)]
pub struct JavaMethod {
    pub documentation: Option<JavaDoc>,
    pub annotations: Vec<JavaAnnotation>,
    pub modifiers: Vec<String>,
    pub type_parameters: Vec<JavaTypeParameter>,
    pub return_type: Option<JavaTypeRef>,
    pub name: String,
    pub args: Vec<JavaArgument>,
    pub throws: Vec<JavaTypeRef>,
    pub range: (usize, usize),
}

/// An element declared in an `@interface` body.
#[derive(Debug)]
pub struct JavaAnnotationElement {
    pub documentation: Option<JavaDoc>,
    pub annotations: Vec<JavaAnnotation>,
    pub name: String,
    pub return_type: JavaTypeRef,
    pub default_value: Option<JavaAnnotationValue>,
    pub range: (usize, usize),
}

/// A class, interface, enum, record, or annotation declaration.
#[derive(Debug)]
pub struct JavaType {
    pub kind: TypeKind,
    pub name: String,
    pub documentation: Option<JavaDoc>,
    pub annotations: Vec<JavaAnnotation>,
    pub modifiers: Vec<String>,
    pub type_parameters: Vec<JavaTypeParameter>,
    pub extends: Vec<JavaTypeRef>,
    pub implements: Vec<JavaTypeRef>,
    pub fields: Vec<JavaField>,
    pub constructors: Vec<JavaConstructor>,
    pub methods: Vec<JavaMethod>,
    pub enum_constants: Vec<String>,
    pub record_components: Vec<JavaArgument>,
    pub annotation_elements: Vec<JavaAnnotationElement>,
    pub nested_types: Vec<JavaType>,
    pub range: (usize, usize),
    pub body_range: Option<(usize, usize)>,
}

/// One parsed Java source file.
#[derive(Debug)]
pub struct JavaFile {
    pub package: Option<String>,
    pub imports: Vec<String>,
    pub types: Vec<JavaType>,
}

} // verus!
