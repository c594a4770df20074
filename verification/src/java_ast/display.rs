//! Java-source spelling of type references, annotations and type parameters.

use vstd::prelude::*;

use crate::text::str_eq;

use super::model::{
    JavaAnnotation, JavaAnnotationArgument, JavaAnnotationValue, JavaPrimitiveType,
    JavaTypeArgument, JavaTypeParameter, JavaTypeRef, JavaWildcardBound,
};

verus! {

/// The keyword of a primitive type.
pub open spec fn primitive_text(p: JavaPrimitiveType) -> Seq<char> {
    match p {
        JavaPrimitiveType::Boolean => "boolean"@,
        JavaPrimitiveType::Byte => "byte"@,
        JavaPrimitiveType::Short => "short"@,
        JavaPrimitiveType::Int => "int"@,
        JavaPrimitiveType::Long => "long"@,
        JavaPrimitiveType::Char => "char"@,
        JavaPrimitiveType::Float => "float"@,
        JavaPrimitiveType::Double => "double"@,
    }
}

/// The primitive type a keyword names, if it names one.
pub open spec fn primitive_of(text: Seq<char>) -> Option<JavaPrimitiveType> {
    if text == "boolean"@ {
        Some(JavaPrimitiveType::Boolean)
    } else if text == "byte"@ {
        Some(JavaPrimitiveType::Byte)
    } else if text == "short"@ {
        Some(JavaPrimitiveType::Short)
    } else if text == "int"@ {
        Some(JavaPrimitiveType::Int)
    } else if text == "long"@ {
        Some(JavaPrimitiveType::Long)
    } else if text == "char"@ {
        Some(JavaPrimitiveType::Char)
    } else if text == "float"@ {
        Some(JavaPrimitiveType::Float)
    } else if text == "double"@ {
        Some(JavaPrimitiveType::Double)
    } else {
        None
    }
}

/// Reading a primitive type's keyword gives the type back.
pub proof fn lemma_primitive_keyword_round_trip(p: JavaPrimitiveType)
    ensures
        primitive_of(primitive_text(p)) == Some(p),
{
    reveal_strlit("boolean");
    reveal_strlit("byte");
    reveal_strlit("short");
    reveal_strlit("int");
    reveal_strlit("long");
    reveal_strlit("char");
    reveal_strlit("float");
    reveal_strlit("double");
    let kw = seq!["boolean"@, "byte"@, "short"@, "int"@, "long"@, "char"@, "float"@, "double"@];
    assert forall|a: int, b: int| 0 <= a < b < 8 implies kw[a] != kw[b] by {
        if kw[a].len() == kw[b].len() {
            assert(kw[a][0] != kw[b][0] || kw[a][1] != kw[b][1]);
        }
    }
    assert(kw[0] == "boolean"@ && kw[1] == "byte"@ && kw[2] == "short"@ && kw[3] == "int"@);
    assert(kw[4] == "long"@ && kw[5] == "char"@ && kw[6] == "float"@ && kw[7] == "double"@);
}

impl JavaPrimitiveType {
    /// The primitive type a keyword names, if it names one.
    pub fn from_source(text: &str) -> (r: Option<JavaPrimitiveType>)
        ensures
            r == primitive_of(text@),
    {
        if str_eq(text, "boolean") {
            Some(JavaPrimitiveType::Boolean)
        } else if str_eq(text, "byte") {
            Some(JavaPrimitiveType::Byte)
        } else if str_eq(text, "short") {
            Some(JavaPrimitiveType::Short)
        } else if str_eq(text, "int") {
            Some(JavaPrimitiveType::Int)
        } else if str_eq(text, "long") {
            Some(JavaPrimitiveType::Long)
        } else if str_eq(text, "char") {
            Some(JavaPrimitiveType::Char)
        } else if str_eq(text, "float") {
            Some(JavaPrimitiveType::Float)
        } else if str_eq(text, "double") {
            Some(JavaPrimitiveType::Double)
        } else {
            None
        }
    }
}

/// `n` copies of `[]`.
pub open spec fn brackets(n: nat) -> Seq<char>
    decreases n,
{
    if n == 0 {
        Seq::empty()
    } else {
        brackets((n - 1) as nat) + "[]"@
    }
}

/// How a type reference is spelled in Java source.
pub open spec fn type_ref_text(t: JavaTypeRef) -> Seq<char>
    decreases t,
{
    match t {
        JavaTypeRef::Primitive(p) => primitive_text(p),
        JavaTypeRef::Void => "void"@,
        JavaTypeRef::Reference(r) => {
            let head = match r.qualifier {
                Some(q) => type_ref_text(*q) + "."@ + r.name@,
                None => r.name@,
            };
            if r.args@.len() == 0 {
                head
            } else {
                head + "<"@ + type_args_text(r.args@) + ">"@
            }
        },
        JavaTypeRef::Array { element, dimensions } => type_ref_text(*element) + brackets(dimensions as nat),
        JavaTypeRef::Wildcard { annotations, bound } => {
            let bound_text = match bound {
                Some(JavaWildcardBound::Extends(b)) => " extends "@ + type_ref_text(*b),
                Some(JavaWildcardBound::Super(b)) => " super "@ + type_ref_text(*b),
                None => Seq::empty(),
            };
            annotations_prefix(annotations@) + "?"@ + bound_text
        },
        JavaTypeRef::Annotated { annotations, inner } => annotations_prefix(annotations@) + type_ref_text(*inner),
        JavaTypeRef::Unsupported { text, .. } => text@,
    }
}

/// Generic arguments separated by `, `.
pub open spec fn type_args_text(args: Seq<JavaTypeArgument>) -> Seq<char>
    decreases args,
{
    if args.len() == 0 {
        Seq::empty()
    } else {
        let last = match args.last() {
            JavaTypeArgument::Type(t) => type_ref_text(t),
            JavaTypeArgument::Wildcard(t) => type_ref_text(t),
        };
        if args.len() == 1 {
            last
        } else {
            type_args_text(args.drop_last()) + ", "@ + last
        }
    }
}

/// Annotations separated by spaces, followed by one space (empty when there are none).
pub open spec fn annotations_prefix(anns: Seq<JavaAnnotation>) -> Seq<char>
    decreases anns, 1nat,
{
    if anns.len() == 0 {
        Seq::empty()
    } else {
        annotations_text(anns) + " "@
    }
}

/// Annotations separated by spaces.
pub open spec fn annotations_text(anns: Seq<JavaAnnotation>) -> Seq<char>
    decreases anns, 0nat,
{
    if anns.len() == 0 {
        Seq::empty()
    } else if anns.len() == 1 {
        annotation_text(anns[0])
    } else {
        annotations_text(anns.drop_last()) + " "@ + annotation_text(anns.last())
    }
}

/// How an annotation use is spelled: `@Name` or `@Name(arguments)`.
pub open spec fn annotation_text(a: JavaAnnotation) -> Seq<char>
    decreases a,
{
    if a.arguments@.len() == 0 {
        "@"@ + a.name@
    } else {
        "@"@ + a.name@ + "("@ + annotation_args_text(a.arguments@) + ")"@
    }
}

/// Annotation arguments separated by `, `.
pub open spec fn annotation_args_text(args: Seq<JavaAnnotationArgument>) -> Seq<char>
    decreases args,
{
    if args.len() == 0 {
        Seq::empty()
    } else {
        let last = match args.last() {
            JavaAnnotationArgument::Named { name, value } => name@ + " = "@ + annotation_value_text(value),
            JavaAnnotationArgument::Default(value) => annotation_value_text(value),
        };
        if args.len() == 1 {
            last
        } else {
            annotation_args_text(args.drop_last()) + ", "@ + last
        }
    }
}

/// How an annotation value is spelled.
pub open spec fn annotation_value_text(v: JavaAnnotationValue) -> Seq<char>
    decreases v,
{
    match v {
        JavaAnnotationValue::String(s) => s@,
        JavaAnnotationValue::Char(s) => s@,
        JavaAnnotationValue::Number(s) => s@,
        JavaAnnotationValue::Boolean(b) => if b { "true"@ } else { "false"@ },
        JavaAnnotationValue::Null => "null"@,
        JavaAnnotationValue::Annotation(a) => annotation_text(a),
        JavaAnnotationValue::Array(vs) => "{"@ + annotation_values_text(vs@) + "}"@,
        JavaAnnotationValue::ClassLiteral(t) => type_ref_text(t) + ".class"@,
        JavaAnnotationValue::Reference(s) => s@,
        JavaAnnotationValue::Expression(s) => s@,
        JavaAnnotationValue::Unsupported { text, .. } => text@,
    }
}

/// Annotation values separated by `, `.
pub open spec fn annotation_values_text(vs: Seq<JavaAnnotationValue>) -> Seq<char>
    decreases vs,
{
    if vs.len() == 0 {
        Seq::empty()
    } else if vs.len() == 1 {
        annotation_value_text(vs[0])
    } else {
        annotation_values_text(vs.drop_last()) + ", "@ + annotation_value_text(vs.last())
    }
}

/// Types separated by `sep`.
pub open spec fn type_list_text(ts: Seq<JavaTypeRef>, sep: Seq<char>) -> Seq<char>
    decreases ts.len(),
{
    if ts.len() == 0 {
        Seq::empty()
    } else if ts.len() == 1 {
        type_ref_text(ts[0])
    } else {
        type_list_text(ts.drop_last(), sep) + sep + type_ref_text(ts.last())
    }
}

/// How a type parameter is spelled: `T` or `T extends A & B`.
pub open spec fn type_parameter_text(p: JavaTypeParameter) -> Seq<char> {
    let head = annotations_prefix(p.annotations@) + p.name@;
    if p.bounds@.len() == 0 {
        head
    } else {
        head + " extends "@ + type_list_text(p.bounds@, " & "@)
    }
}

/// Type parameters separated by `, `.
pub open spec fn type_parameters_text(ps: Seq<JavaTypeParameter>) -> Seq<char>
    decreases ps.len(),
{
    if ps.len() == 0 {
        Seq::empty()
    } else if ps.len() == 1 {
        type_parameter_text(ps[0])
    } else {
        type_parameters_text(ps.drop_last()) + ", "@ + type_parameter_text(ps.last())
    }
}

// ---------------------------------------------------------------------------
// Writers: each appends the spelling of its argument to `out`.
// ---------------------------------------------------------------------------

/// Appends the keyword of a primitive type.
pub fn write_primitive(p: JavaPrimitiveType, out: &mut String)
    ensures
        final(out)@ == old(out)@ + primitive_text(p),
{
    match p {
        JavaPrimitiveType::Boolean => out.append("boolean"),
        JavaPrimitiveType::Byte => out.append("byte"),
        JavaPrimitiveType::Short => out.append("short"),
        JavaPrimitiveType::Int => out.append("int"),
        JavaPrimitiveType::Long => out.append("long"),
        JavaPrimitiveType::Char => out.append("char"),
        JavaPrimitiveType::Float => out.append("float"),
        JavaPrimitiveType::Double => out.append("double"),
    }
}

/// Appends the spelling of a type reference.
pub fn write_type_ref(t: &JavaTypeRef, out: &mut String)
    ensures
        final(out)@ == old(out)@ + type_ref_text(*t),
    decreases t, 2nat,
{
    let ghost start = out@;
    match t {
        JavaTypeRef::Primitive(p) => write_primitive(*p, out),
        JavaTypeRef::Void => out.append("void"),
        JavaTypeRef::Reference(r) => {
            match &r.qualifier {
                Some(q) => {
                    write_type_ref(q, out);
                    out.append(".");
                },
                None => {},
            }
            out.append(r.name.as_str());
            let ghost head = out@;
            if r.args.len() > 0 {
                out.append("<");
                write_type_args(&r.args, out);
                out.append(">");
            }
            assert(out@ =~= start + type_ref_text(*t));
        },
        JavaTypeRef::Array { element, dimensions } => {
            write_type_ref(element, out);
            let ghost mid = out@;
            let mut k: usize = 0;
            while k < *dimensions
                invariant
                    k <= *dimensions,
                    out@ == mid + brackets(k as nat),
                decreases *dimensions - k,
            {
                out.append("[]");
                k = k + 1;
            }
            assert(out@ =~= start + type_ref_text(*t));
        },
        JavaTypeRef::Wildcard { annotations, bound } => {
            write_annotations_prefix(annotations, out);
            out.append("?");
            match bound {
                Some(JavaWildcardBound::Extends(b)) => {
                    out.append(" extends ");
                    write_type_ref(b, out);
                },
                Some(JavaWildcardBound::Super(b)) => {
                    out.append(" super ");
                    write_type_ref(b, out);
                },
                None => {},
            }
            assert(out@ =~= start + type_ref_text(*t));
        },
        JavaTypeRef::Annotated { annotations, inner } => {
            write_annotations_prefix(annotations, out);
            write_type_ref(inner, out);
            assert(out@ =~= start + type_ref_text(*t));
        },
        JavaTypeRef::Unsupported { text, .. } => out.append(text.as_str()),
    }
}

/// Appends generic arguments separated by `, `.
pub fn write_type_args(args: &Vec<JavaTypeArgument>, out: &mut String)
    ensures
        final(out)@ == old(out)@ + type_args_text(args@),
    decreases args@, 1nat,
{
    let ghost start = out@;
    let n = args.len();
    for i in 0..n
        invariant
            n == args@.len(),
            out@ == start + type_args_text(args@.take(i as int)),
    {
        let ghost before = out@;
        if i > 0 {
            out.append(", ");
        }
        proof { assert(decreases_to!(args@ => args@[i as int])); }
        match &args[i] {
            JavaTypeArgument::Type(t) => write_type_ref(t, out),
            JavaTypeArgument::Wildcard(t) => write_type_ref(t, out),
        }
        proof {
            let tk = args@.take(i + 1);
            assert(tk.drop_last() == args@.take(i as int));
            assert(tk.last() == args@[i as int]);
            assert(out@ =~= start + type_args_text(tk));
        }
    }
    assert(args@.take(n as int) == args@);
}

/// Appends annotations separated by spaces and a trailing space (nothing when empty).
pub fn write_annotations_prefix(anns: &Vec<JavaAnnotation>, out: &mut String)
    ensures
        final(out)@ == old(out)@ + annotations_prefix(anns@),
    decreases anns@, 1nat,
{
    if anns.len() > 0 {
        write_annotations(anns, out);
        out.append(" ");
    }
}

/// Appends annotations separated by spaces.
pub fn write_annotations(anns: &Vec<JavaAnnotation>, out: &mut String)
    ensures
        final(out)@ == old(out)@ + annotations_text(anns@),
    decreases anns@, 0nat,
{
    let ghost start = out@;
    let n = anns.len();
    for i in 0..n
        invariant
            n == anns@.len(),
            out@ == start + annotations_text(anns@.take(i as int)),
    {
        if i > 0 {
            out.append(" ");
        }
        proof { assert(decreases_to!(anns@ => anns@[i as int])); }
        write_annotation(&anns[i], out);
        proof {
            let tk = anns@.take(i + 1);
            assert(tk.drop_last() == anns@.take(i as int));
            assert(tk.last() == anns@[i as int]);
            assert(out@ =~= start + annotations_text(tk));
        }
    }
    assert(anns@.take(n as int) == anns@);
}

/// Appends one annotation use.
pub fn write_annotation(a: &JavaAnnotation, out: &mut String)
    ensures
        final(out)@ == old(out)@ + annotation_text(*a),
    decreases a, 3nat,
{
    let ghost start = out@;
    out.append("@");
    out.append(a.name.as_str());
    if a.arguments.len() > 0 {
        out.append("(");
        write_annotation_args(&a.arguments, out);
        out.append(")");
    }
    assert(out@ =~= start + annotation_text(*a));
}

/// Appends annotation arguments separated by `, `.
pub fn write_annotation_args(args: &Vec<JavaAnnotationArgument>, out: &mut String)
    ensures
        final(out)@ == old(out)@ + annotation_args_text(args@),
    decreases args@, 2nat,
{
    let ghost start = out@;
    let n = args.len();
    for i in 0..n
        invariant
            n == args@.len(),
            out@ == start + annotation_args_text(args@.take(i as int)),
    {
        if i > 0 {
            out.append(", ");
        }
        proof { assert(decreases_to!(args@ => args@[i as int])); }
        match &args[i] {
            JavaAnnotationArgument::Named { name, value } => {
                out.append(name.as_str());
                out.append(" = ");
                write_annotation_value(value, out);
            },
            JavaAnnotationArgument::Default(value) => write_annotation_value(value, out),
        }
        proof {
            let tk = args@.take(i + 1);
            assert(tk.drop_last() == args@.take(i as int));
            assert(tk.last() == args@[i as int]);
            assert(out@ =~= start + annotation_args_text(tk));
        }
    }
    assert(args@.take(n as int) == args@);
}

/// Appends one annotation value.
pub fn write_annotation_value(v: &JavaAnnotationValue, out: &mut String)
    ensures
        final(out)@ == old(out)@ + annotation_value_text(*v),
    decreases v, 1nat,
{
    let ghost start = out@;
    match v {
        JavaAnnotationValue::String(s) => out.append(s.as_str()),
        JavaAnnotationValue::Char(s) => out.append(s.as_str()),
        JavaAnnotationValue::Number(s) => out.append(s.as_str()),
        JavaAnnotationValue::Boolean(b) => if *b {
            out.append("true")
        } else {
            out.append("false")
        },
        JavaAnnotationValue::Null => out.append("null"),
        JavaAnnotationValue::Annotation(a) => write_annotation(a, out),
        JavaAnnotationValue::Array(vs) => {
            out.append("{");
            write_annotation_values(vs, out);
            out.append("}");
            assert(out@ =~= start + annotation_value_text(*v));
        },
        JavaAnnotationValue::ClassLiteral(t) => {
            write_type_ref(t, out);
            out.append(".class");
            assert(out@ =~= start + annotation_value_text(*v));
        },
        JavaAnnotationValue::Reference(s) => out.append(s.as_str()),
        JavaAnnotationValue::Expression(s) => out.append(s.as_str()),
        JavaAnnotationValue::Unsupported { text, .. } => out.append(text.as_str()),
    }
}

/// Appends annotation values separated by `, `.
pub fn write_annotation_values(vs: &Vec<JavaAnnotationValue>, out: &mut String)
    ensures
        final(out)@ == old(out)@ + annotation_values_text(vs@),
    decreases vs@, 0nat,
{
    let ghost start = out@;
    let n = vs.len();
    for i in 0..n
        invariant
            n == vs@.len(),
            out@ == start + annotation_values_text(vs@.take(i as int)),
    {
        if i > 0 {
            out.append(", ");
        }
        proof { assert(decreases_to!(vs@ => vs@[i as int])); }
        write_annotation_value(&vs[i], out);
        proof {
            let tk = vs@.take(i + 1);
            assert(tk.drop_last() == vs@.take(i as int));
            assert(tk.last() == vs@[i as int]);
            assert(out@ =~= start + annotation_values_text(tk));
        }
    }
    assert(vs@.take(n as int) == vs@);
}

/// Appends types separated by `sep`.
pub fn write_type_list(ts: &Vec<JavaTypeRef>, sep: &str, out: &mut String)
    ensures
        final(out)@ == old(out)@ + type_list_text(ts@, sep@),
{
    let ghost start = out@;
    let n = ts.len();
    for i in 0..n
        invariant
            n == ts@.len(),
            out@ == start + type_list_text(ts@.take(i as int), sep@),
    {
        if i > 0 {
            out.append(sep);
        }
        write_type_ref(&ts[i], out);
        proof {
            let tk = ts@.take(i + 1);
            assert(tk.drop_last() == ts@.take(i as int));
            assert(tk.last() == ts@[i as int]);
            assert(out@ =~= start + type_list_text(tk, sep@));
        }
    }
    assert(ts@.take(n as int) == ts@);
}

/// Appends one type parameter.
pub fn write_type_parameter(p: &JavaTypeParameter, out: &mut String)
    ensures
        final(out)@ == old(out)@ + type_parameter_text(*p),
{
    let ghost start = out@;
    write_annotations_prefix(&p.annotations, out);
    out.append(p.name.as_str());
    if p.bounds.len() > 0 {
        out.append(" extends ");
        write_type_list(&p.bounds, " & ", out);
    }
    assert(out@ =~= start + type_parameter_text(*p));
}

/// Appends type parameters separated by `, `.
pub fn write_type_parameters(ps: &Vec<JavaTypeParameter>, out: &mut String)
    ensures
        final(out)@ == old(out)@ + type_parameters_text(ps@),
{
    let ghost start = out@;
    let n = ps.len();
    for i in 0..n
        invariant
            n == ps@.len(),
            out@ == start + type_parameters_text(ps@.take(i as int)),
    {
        if i > 0 {
            out.append(", ");
        }
        write_type_parameter(&ps[i], out);
        proof {
            let tk = ps@.take(i + 1);
            assert(tk.drop_last() == ps@.take(i as int));
            assert(tk.last() == ps@[i as int]);
            assert(out@ =~= start + type_parameters_text(tk));
        }
    }
    assert(ps@.take(n as int) == ps@);
}

/// The spelling of a type reference as a new string.
pub fn type_ref_string(t: &JavaTypeRef) -> (s: String)
    ensures
        s@ == type_ref_text(*t),
{
    let mut s = String::new();
    write_type_ref(t, &mut s);
    s
}

} // verus!
