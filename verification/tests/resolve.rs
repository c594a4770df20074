use java_atlas::java_ast::model::{JavaFile, JavaTypeArgument, JavaTypeRef, JavaWildcardBound};
use java_atlas::java_ast::parse::parse_java_file;
use java_atlas::java_ast::resolve::resolve_files;

fn parse_all(sources: &[&str]) -> Vec<JavaFile> {
    sources.iter().map(|s| parse_java_file(s).expect("parse")).collect()
}

fn resolved(tref: &JavaTypeRef) -> Option<&str> {
    match tref {
        JavaTypeRef::Reference(r) => r.resolved_fqn.as_deref(),
        JavaTypeRef::Annotated { inner, .. } => resolved(inner),
        _ => None,
    }
}

#[test]
fn resolves_explicit_import() {
    let mut files = parse_all(&[
        "package com.example.model; public class User {}",
        "package com.example.service; import com.example.model.User; \
         public class Service { private User user; }",
    ]);
    resolve_files(&mut files);
    let service = &files[1].types[0];
    assert_eq!(resolved(&service.fields[0].ty), Some("com.example.model.User"));
}

#[test]
fn resolves_same_package_without_import() {
    let mut files = parse_all(&["package x; public class A {}", "package x; public class B { A a; }"]);
    resolve_files(&mut files);
    let b = &files[1].types[0];
    assert_eq!(resolved(&b.fields[0].ty), Some("x.A"));
}

#[test]
fn resolves_wildcard_import() {
    let mut files = parse_all(&[
        "package com.foo; public class Foo {}",
        "package other; import com.foo.*; public class Bar { Foo f; }",
    ]);
    resolve_files(&mut files);
    let bar = &files[1].types[0];
    assert_eq!(resolved(&bar.fields[0].ty), Some("com.foo.Foo"));
}

#[test]
fn resolves_nested_type_via_outer() {
    let mut files = parse_all(&[
        "package x; public class Outer { public static class Inner {} }",
        "package x; public class B { Outer.Inner field; }",
    ]);
    resolve_files(&mut files);
    let b = &files[1].types[0];
    assert_eq!(resolved(&b.fields[0].ty), Some("x.Outer.Inner"));
}

#[test]
fn resolves_fully_qualified_inline_use() {
    let mut files = parse_all(&[
        "package com.example; public class Thing {}",
        "package other; public class B { com.example.Thing t; }",
    ]);
    resolve_files(&mut files);
    let b = &files[1].types[0];
    assert_eq!(resolved(&b.fields[0].ty), Some("com.example.Thing"));
}

#[test]
fn external_types_stay_unresolved() {
    let mut files = parse_all(&["package a; public class A { String s; }"]);
    resolve_files(&mut files);
    let a = &files[0].types[0];
    assert_eq!(resolved(&a.fields[0].ty), None);
}

#[test]
fn generic_args_resolve_independently_of_raw_type() {
    let mut files = parse_all(&[
        "package a; public class User {}",
        "package b; import a.User; import java.util.List; \
         public class Holder { List<User> users; }",
    ]);
    resolve_files(&mut files);
    let holder = &files[1].types[0];
    let field_ty = &holder.fields[0].ty;
    assert_eq!(resolved(field_ty), None);
    let JavaTypeRef::Reference(reference) = field_ty else {
        panic!("expected reference type");
    };
    let JavaTypeArgument::Type(arg) = &reference.args[0] else {
        panic!("expected type argument");
    };
    assert_eq!(resolved(arg), Some("a.User"));
}

#[test]
fn array_element_is_resolved() {
    let mut files = parse_all(&[
        "package a; public class User {}",
        "package b; import a.User; public class B { User[] users; }",
    ]);
    resolve_files(&mut files);
    let b = &files[1].types[0];
    let JavaTypeRef::Array { element, .. } = &b.fields[0].ty else {
        panic!("expected array type");
    };
    assert_eq!(resolved(element), Some("a.User"));
}

#[test]
fn wildcard_bound_is_resolved() {
    let mut files = parse_all(&[
        "package a; public class Animal {}",
        "package b; import a.Animal; import java.util.List; \
         public class B { List<? extends Animal> list; }",
    ]);
    resolve_files(&mut files);
    let b = &files[1].types[0];
    let JavaTypeRef::Reference(list_ref) = &b.fields[0].ty else {
        panic!("expected reference");
    };
    let JavaTypeArgument::Wildcard(JavaTypeRef::Wildcard { bound, .. }) = &list_ref.args[0] else {
        panic!("expected wildcard argument");
    };
    let bound = bound.as_ref().expect("wildcard should have bound");
    let JavaWildcardBound::Extends(inner) = bound else {
        panic!("expected extends bound");
    };
    assert_eq!(resolved(inner), Some("a.Animal"));
}

#[test]
fn same_file_reference_resolves() {
    let mut files = parse_all(&["package x; public class Foo { Bar b; } class Bar {}"]);
    resolve_files(&mut files);
    let foo = &files[0].types[0];
    assert_eq!(resolved(&foo.fields[0].ty), Some("x.Bar"));
}

#[test]
fn explicit_import_of_unparsed_type_is_not_trusted() {
    let mut files = parse_all(&["package b; import a.Missing; public class B { Missing m; }"]);
    resolve_files(&mut files);
    assert_eq!(resolved(&files[0].types[0].fields[0].ty), None);
}

#[test]
fn resolving_twice_changes_nothing() {
    let mut files = parse_all(&[
        "package a; public class User {}",
        "package b; import a.User; public class B { User u; java.util.List<User> us; }",
    ]);
    resolve_files(&mut files);
    let first = format!("{:?}", files);
    resolve_files(&mut files);
    assert_eq!(format!("{:?}", files), first);
}

#[test]
fn method_and_constructor_type_parameter_bounds_resolve() {
    let mut files = parse_all(&[
        "package a; public class User {}",
        "package b; import a.User; public class B { public <T extends User> void m() {} public <U extends User> B() {} }",
    ]);
    resolve_files(&mut files);
    let ty = &files[1].types[0];
    assert_eq!(resolved(&ty.methods[0].type_parameters[0].bounds[0]), Some("a.User"));
    assert_eq!(resolved(&ty.constructors[0].type_parameters[0].bounds[0]), Some("a.User"));
}
