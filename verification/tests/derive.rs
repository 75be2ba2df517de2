use const_typed_builder_derive::diagnostic::{Diagnostic, DiagnosticKind, Level};
use const_typed_builder_derive::generator::builder_generator::missing_setter_type;
use const_typed_builder_derive::generator::Generator;
use const_typed_builder_derive::info::container::{Container, SolverKind};
use const_typed_builder_derive::info::field::FieldKind;
use const_typed_builder_derive::info::group::GroupType;
use const_typed_builder_derive::model::{
    AttrMeta, Attribute, Data, Delimiter, DeriveInput, FieldInput, Fields, GenericArgument,
    GenericParam, GenericParamKind, Generics, PathArguments, PathSegment, TokenTree, Type,
    TypeShape,
};
use const_typed_builder_derive::parser::container_parser::ContainerParser;

fn ident(text: &str) -> TokenTree {
    TokenTree::Ident { text: text.to_string(), span: 7 }
}

fn punct(ch: char) -> TokenTree {
    TokenTree::Punct { ch, joint: false, span: 8 }
}

fn lit(text: &str) -> TokenTree {
    TokenTree::Literal { text: text.to_string(), span: 9 }
}

fn parens(stream: Vec<TokenTree>) -> TokenTree {
    TokenTree::Group { delimiter: Delimiter::Parenthesis, stream, span: 10 }
}

fn attr(name: &str, tokens: Vec<TokenTree>) -> Attribute {
    Attribute {
        path_ident: Some(name.to_string()),
        meta: AttrMeta::List { tokens, span: 11 },
        span: 12,
    }
}

fn path_ty(name: &str) -> Type {
    Type {
        text: name.to_string(),
        shape: TypeShape::Path {
            qself: false,
            segments: vec![PathSegment { ident: name.to_string(), arguments: PathArguments::NoArguments }],
        },
    }
}

fn option_ty(inner: &str) -> Type {
    Type {
        text: format!("Option<{}>", inner),
        shape: TypeShape::Path {
            qself: false,
            segments: vec![PathSegment {
                ident: "Option".to_string(),
                arguments: PathArguments::AngleBracketed(vec![GenericArgument::Type(path_ty(inner))]),
            }],
        },
    }
}

fn field(name: &str, ty: Type, attrs: Vec<Attribute>) -> FieldInput {
    FieldInput { ident: Some(name.to_string()), ty, attrs, span: 20 }
}

fn no_generics() -> Generics {
    Generics { params: vec![], where_clause: String::new() }
}

fn input(name: &str, attrs: Vec<Attribute>, fields: Vec<FieldInput>) -> DeriveInput {
    DeriveInput {
        attrs,
        vis: "pub".to_string(),
        ident: name.to_string(),
        generics: no_generics(),
        data: Data::Struct(Fields::Named(fields)),
        span: 1,
    }
}

fn parse(ast: DeriveInput) -> (Option<Container>, Vec<Diagnostic>) {
    let mut diags = Vec::new();
    let c = ContainerParser::new().parse(ast, &mut diags);
    (c, diags)
}

fn derive(ast: DeriveInput) -> (String, Vec<Diagnostic>) {
    let (c, mut diags) = parse(ast);
    let c = c.expect("the container parses");
    assert_eq!(missing_setter_type(&c.fields), None);
    let generator = Generator::new(&c, &mut diags);
    (generator.generate(), diags)
}

fn kinds(c: &Container) -> Vec<FieldKind> {
    c.fields.iter().map(|f| f.kind).collect()
}

fn errors(diags: &[Diagnostic]) -> Vec<DiagnosticKind> {
    diags.iter().filter(|d| d.level == Level::Error).map(|d| d.kind).collect()
}

fn assert_parses_as_rust(text: &str) {
    if let Err(e) = syn::parse_file(text) {
        panic!("generated code does not parse: {}\n{}", e, text);
    }
}

#[test]
fn single_mandatory_field_target_impl() {
    let (text, diags) = derive(input("Foo", vec![], vec![field("bar", path_ty("String"), vec![])]));
    assert!(diags.is_empty());
    let target = "impl Builder for Foo  {\n    type BuilderImpl = FooBuilder<false>;\n    #[doc = \"Creates an instance of [`FooBuilder`]\"]\n    fn builder() -> Self::BuilderImpl {\n        Self::BuilderImpl::new()\n    }\n}\n";
    assert!(text.starts_with(target), "{}", text);
    assert!(text.contains("pub struct FooBuilder<const __BUILDER_CONST0: bool>  {\n    __foo_data: FooData\n}\n"));
    assert!(text.contains("pub fn bar(self, bar: String) -> FooBuilder<true> {"));
    assert!(text.contains("impl FooBuilder<true>  {\n    #[doc = \"Build an instance of [`Foo`], consuming the [`FooBuilder`]\"]"));
    assert!(!text.contains("impl FooBuilder<false>  {\n    #[doc = \"Build"));
    assert!(text.contains("            bar: data.bar.unwrap(),\n"));
    assert!(text.contains("    pub bar: Option<String>,\n"));
    assert_parses_as_rust(&text);
}

#[test]
fn option_fields_are_optional_by_default() {
    let (c, diags) = parse(input(
        "Foo",
        vec![],
        vec![field("bar", path_ty("String"), vec![]), field("baz", option_ty("String"), vec![])],
    ));
    assert!(diags.is_empty());
    let c = c.unwrap();
    assert_eq!(kinds(&c), vec![FieldKind::Mandatory, FieldKind::Optional]);
    let (text, _) = derive(input(
        "Foo",
        vec![],
        vec![field("bar", path_ty("String"), vec![]), field("baz", option_ty("String"), vec![])],
    ));
    // only the mandatory field is tracked in the builder's type
    assert!(text.contains("type BuilderImpl = FooBuilder<false>;"));
    assert!(text.contains("pub fn baz(self, baz: Option<String>) -> FooBuilder<__BUILDER_CONST0> {"));
    assert!(text.contains("__foo_data.baz = baz;"));
    assert_parses_as_rust(&text);
}

#[test]
fn assume_mandatory_makes_option_fields_mandatory() {
    let (c, diags) = parse(input(
        "Foo",
        vec![attr("builder", vec![ident("assume_mandatory")])],
        vec![field("bar", option_ty("String"), vec![]), field("baz", option_ty("String"), vec![attr("builder", vec![ident("optional")])])],
    ));
    assert!(diags.is_empty());
    assert_eq!(kinds(&c.unwrap()), vec![FieldKind::Mandatory, FieldKind::Optional]);
}

#[test]
fn assume_mandatory_false_keeps_option_fields_optional() {
    let (c, diags) = parse(input(
        "Foo",
        vec![attr("builder", vec![ident("assume_mandatory"), punct('='), ident("false")])],
        vec![field("bar", option_ty("String"), vec![])],
    ));
    assert!(diags.is_empty());
    assert_eq!(kinds(&c.unwrap()), vec![FieldKind::Optional]);
}

#[test]
fn mandatory_option_field_takes_inner_type() {
    let (text, diags) = derive(input(
        "Launchd",
        vec![],
        vec![field("label", option_ty("String"), vec![attr("builder", vec![ident("mandatory")])])],
    ));
    assert!(diags.is_empty());
    assert!(text.contains("pub fn label(self, label: String) -> LaunchdBuilder<true> {"));
    assert!(text.contains("__launchd_data.label = Some(label);"));
    assert!(text.contains("    pub label: Option<String>,\n"));
    assert!(text.contains("            label: data.label,\n"));
    assert_parses_as_rust(&text);
}

#[test]
fn mandatory_false_and_optional_true_mean_optional() {
    let (c, diags) = parse(input(
        "Foo",
        vec![],
        vec![
            field("a", option_ty("u8"), vec![attr("builder", vec![ident("mandatory"), punct('='), ident("false")])]),
            field("b", option_ty("u8"), vec![attr("builder", vec![ident("optional"), punct('='), ident("true")])]),
            field("c", option_ty("u8"), vec![attr("builder", vec![ident("optional"), punct('='), ident("false")])]),
        ],
    ));
    assert!(diags.is_empty());
    assert_eq!(kinds(&c.unwrap()), vec![FieldKind::Optional, FieldKind::Optional, FieldKind::Mandatory]);
}

#[test]
fn skipped_field_has_no_setter() {
    let (text, diags) = derive(input(
        "Foo",
        vec![],
        vec![
            field("bar", path_ty("String"), vec![]),
            field("on_demand", option_ty("bool"), vec![attr("builder", vec![ident("skip")])]),
        ],
    ));
    assert!(diags.is_empty());
    assert!(!text.contains("pub fn on_demand"));
    assert!(!text.contains("pub on_demand"));
    assert!(text.contains("            on_demand: None,\n"));
    assert_parses_as_rust(&text);
}

#[test]
fn skip_takes_no_value() {
    let (c, diags) = parse(input(
        "Foo",
        vec![],
        vec![field("a", option_ty("u8"), vec![attr("builder", vec![ident("skip"), punct('='), ident("false")])])],
    ));
    assert_eq!(kinds(&c.unwrap()), vec![FieldKind::Skipped]);
    assert_eq!(errors(&diags), vec![DiagnosticKind::MalformedArguments]);
}

#[test]
fn flag_value_that_is_not_a_boolean_is_an_error() {
    let (c, diags) = parse(input(
        "Foo",
        vec![],
        vec![field("a", option_ty("u8"), vec![attr("builder", vec![ident("mandatory"), punct('='), lit("5")])])],
    ));
    assert_eq!(kinds(&c.unwrap()), vec![FieldKind::Optional]);
    assert_eq!(errors(&diags), vec![DiagnosticKind::MalformedArguments]);
    let (c, diags) = parse(input(
        "Foo",
        vec![attr("builder", vec![ident("assume_mandatory"), punct('='), lit("\"yes\"")])],
        vec![field("a", option_ty("u8"), vec![])],
    ));
    assert_eq!(kinds(&c.unwrap()), vec![FieldKind::Optional]);
    assert_eq!(errors(&diags), vec![DiagnosticKind::MalformedArguments]);
}

#[test]
fn skip_on_non_option_field_conflicts() {
    let (c, diags) = parse(input(
        "Foo",
        vec![],
        vec![field("a", path_ty("u8"), vec![attr("builder", vec![ident("skip")])])],
    ));
    assert_eq!(kinds(&c.unwrap()), vec![FieldKind::Mandatory]);
    assert_eq!(
        errors(&diags),
        vec![DiagnosticKind::KindConflict { requested: FieldKind::Skipped, existing: FieldKind::Mandatory }]
    );
}

#[test]
fn first_kind_wins_and_conflict_is_reported() {
    let (c, diags) = parse(input(
        "Foo",
        vec![],
        vec![field("a", option_ty("u8"), vec![attr("builder", vec![ident("mandatory"), punct(','), ident("optional")])])],
    ));
    assert_eq!(kinds(&c.unwrap()), vec![FieldKind::Mandatory]);
    assert_eq!(
        errors(&diags),
        vec![DiagnosticKind::KindConflict { requested: FieldKind::Optional, existing: FieldKind::Mandatory }]
    );
}

#[test]
fn repeated_kind_is_a_warning() {
    let (c, diags) = parse(input(
        "Foo",
        vec![],
        vec![field("a", option_ty("u8"), vec![attr("builder", vec![ident("mandatory"), punct(','), ident("mandatory")])])],
    ));
    assert_eq!(kinds(&c.unwrap()), vec![FieldKind::Mandatory]);
    assert_eq!(diags.len(), 1);
    assert_eq!(diags[0].level, Level::Warning);
    assert_eq!(diags[0].kind, DiagnosticKind::KindRepeated(FieldKind::Mandatory));
}

fn group_def(name: &str, kind: &str, n: Option<&str>) -> Attribute {
    let mut toks = vec![ident(name), punct('='), ident(kind)];
    if let Some(n) = n {
        toks.push(parens(vec![lit(n)]));
    }
    attr("group", toks)
}

fn in_group(name: &str) -> Attribute {
    attr("builder", vec![ident("group"), punct('='), ident(name)])
}

#[test]
fn at_least_group_builds_for_each_accepted_choice() {
    let (text, diags) = derive(input(
        "Launchd",
        vec![group_def("program", "at_least", Some("1"))],
        vec![
            field("label", option_ty("String"), vec![attr("builder", vec![ident("mandatory")])]),
            field("program", option_ty("String"), vec![in_group("program")]),
            field("program_arguments", option_ty("String"), vec![in_group("program")]),
        ],
    ));
    assert!(errors(&diags).is_empty());
    assert_eq!(text.matches("pub fn build(self)").count(), 3);
    assert!(text.contains("impl LaunchdBuilder<true, true, false>  {"));
    assert!(text.contains("impl LaunchdBuilder<true, false, true>  {"));
    assert!(text.contains("impl LaunchdBuilder<true, true, true>  {"));
    assert!(!text.contains("impl LaunchdBuilder<true, false, false>  {"));
    assert!(!text.contains("impl LaunchdBuilder<false, true, true>  {"));
    assert_parses_as_rust(&text);
}

#[test]
fn single_group_is_exact_one() {
    let (c, diags) = parse(input(
        "Foo",
        vec![group_def("g", "single", None)],
        vec![
            field("a", option_ty("u8"), vec![in_group("g")]),
            field("b", option_ty("u8"), vec![in_group("g")]),
        ],
    ));
    assert!(diags.is_empty());
    let c = c.unwrap();
    assert_eq!(c.groups.groups[0].group_type, GroupType::Exact(1));
    assert_eq!(c.groups.groups[0].associated_indices, vec![0, 1]);
    let mut diags = Vec::new();
    let text = Generator::new(&c, &mut diags).generate();
    assert_eq!(text.matches("pub fn build(self)").count(), 2);
    assert!(text.contains("impl FooBuilder<true, false>  {"));
    assert!(text.contains("impl FooBuilder<false, true>  {"));
}

#[test]
fn group_name_may_be_a_string() {
    let (c, diags) = parse(input(
        "Foo",
        vec![group_def("g", "at_most", Some("1"))],
        vec![
            field("a", option_ty("u8"), vec![attr("builder", vec![ident("group"), punct('='), lit("\"g\"")])]),
            field("b", option_ty("u8"), vec![in_group("g")]),
        ],
    ));
    assert!(diags.is_empty());
    let c = c.unwrap();
    assert_eq!(kinds(&c), vec![FieldKind::Grouped, FieldKind::Grouped]);
    assert_eq!(c.groups.groups[0].associated_indices, vec![0, 1]);
}

#[test]
fn unknown_group_is_ignored() {
    let (c, diags) = parse(input(
        "Foo",
        vec![],
        vec![field("a", option_ty("u8"), vec![in_group("nope")])],
    ));
    let c = c.unwrap();
    assert_eq!(kinds(&c), vec![FieldKind::Grouped]);
    assert!(c.groups.groups.is_empty());
    assert!(diags.is_empty());
}

#[test]
fn group_defined_twice_is_reported() {
    let (c, diags) = parse(input(
        "Foo",
        vec![group_def("g", "single", None), group_def("g", "at_least", Some("1"))],
        vec![],
    ));
    let c = c.unwrap();
    assert_eq!(c.groups.groups.len(), 1);
    assert_eq!(errors(&diags), vec![DiagnosticKind::GroupDefinedTwice]);
}

#[test]
fn unsatisfiable_group_is_an_error_when_generating() {
    let (c, diags) = parse(input(
        "Foo",
        vec![group_def("g", "at_least", Some("3"))],
        vec![
            field("a", option_ty("u8"), vec![in_group("g")]),
            field("b", option_ty("u8"), vec![in_group("g")]),
        ],
    ));
    assert!(diags.is_empty());
    let c = c.unwrap();
    let mut diags = Vec::new();
    let text = Generator::new(&c, &mut diags).generate();
    assert!(errors(&diags).contains(&DiagnosticKind::GroupNeverSatisfied));
    assert_eq!(text.matches("pub fn build(self)").count(), 0);
}

#[test]
fn compiler_solver_checks_groups_in_a_constant() {
    let (text, diags) = derive(input(
        "Foo",
        vec![
            group_def("baz", "at_least", Some("2")),
            attr("builder", vec![ident("solver"), punct('='), ident("compiler")]),
        ],
        vec![
            field("bar", option_ty("String"), vec![in_group("baz")]),
            field("baz", option_ty("String"), vec![in_group("baz")]),
        ],
    ));
    assert!(errors(&diags).is_empty());
    assert!(text.contains("impl<const __BUILDER_CONST0: bool, const __BUILDER_CONST1: bool> FooBuilder<__BUILDER_CONST0, __BUILDER_CONST1>  {\n    const GROUP_VERIFIER: () = {\n"));
    assert!(text.contains("        if !Self::at_least(&[__BUILDER_CONST0, __BUILDER_CONST1], 2usize) {\n            panic!(\"`.build()` failed because the bounds of group `baz` where not met (at_least 2)\");\n        }\n"));
    assert!(text.contains("    const fn at_least(input: &[bool], count: usize) -> bool {"));
    assert!(!text.contains("const fn exact"));
    assert!(!text.contains("const fn at_most"));
    assert!(text.contains("        let _ = Self::GROUP_VERIFIER;\n"));
    assert_eq!(text.matches("pub fn build(self)").count(), 1);
    assert_parses_as_rust(&text);
}

#[test]
fn propagate_setter_takes_a_function_of_the_inner_builder() {
    let (text, diags) = derive(input(
        "Foo",
        vec![],
        vec![
            field("bar", path_ty("Bar"), vec![attr("builder", vec![ident("propagate")])]),
            field("limits", option_ty("Limits"), vec![attr("builder", vec![ident("propagate")])]),
        ],
    ));
    assert!(diags.is_empty());
    assert!(text.contains("pub fn bar(self, bar: fn(<Bar as Builder>::BuilderImpl) -> Bar) -> FooBuilder<true> {"));
    assert!(text.contains("__foo_data.bar = Some(bar(<Bar as Builder>::builder()));"));
    assert!(text.contains("pub fn limits(self, limits: fn(<Limits as Builder>::BuilderImpl) -> Option<Limits>) -> FooBuilder<__BUILDER_CONST0> {"));
    assert!(text.contains("__foo_data.limits = limits(<Limits as Builder>::builder());"));
    assert_parses_as_rust(&text);
}

#[test]
fn setter_sets_only_its_own_flag() {
    let (text, _) = derive(input(
        "Foo",
        vec![],
        vec![
            field("a", path_ty("u8"), vec![]),
            field("b", path_ty("u8"), vec![]),
            field("c", path_ty("u8"), vec![]),
        ],
    ));
    assert!(text.contains("impl<const __BUILDER_CONST0: bool, const __BUILDER_CONST2: bool> FooBuilder<__BUILDER_CONST0, false, __BUILDER_CONST2>  {"));
    assert!(text.contains("pub fn b(self, b: u8) -> FooBuilder<__BUILDER_CONST0, true, __BUILDER_CONST2> {"));
    assert!(text.contains("type BuilderImpl = FooBuilder<false, false, false>;"));
    assert!(text.contains("impl FooBuilder<true, true, true>  {"));
    assert_parses_as_rust(&text);
}

#[test]
fn generics_with_where_clause() {
    let mut ast = input("Foo", vec![], vec![field("bar", path_ty("A"), vec![])]);
    ast.generics = Generics {
        params: vec![GenericParam {
            kind: GenericParamKind::Type,
            name: "A".to_string(),
            decl: "A".to_string(),
            default: None,
        }],
        where_clause: "where A: Default".to_string(),
    };
    let (text, _) = derive(ast);
    assert!(text.starts_with("impl<A> Builder for Foo<A> where A: Default {\n    type BuilderImpl = FooBuilder<A, false>;"));
    assert!(text.contains("pub struct FooBuilder<A, const __BUILDER_CONST0: bool> where A: Default {\n    __foo_data: FooData<A>\n}"));
    assert!(text.contains("impl<A> From<FooData<A>> for Foo<A> where A: Default {"));
    assert!(text.contains("pub fn bar(self, bar: A) -> FooBuilder<A, true> {"));
    assert_parses_as_rust(&text);
}

#[test]
fn lifetimes_come_first_and_setter_impl_keeps_defaults() {
    let mut ast = input("Foo", vec![], vec![field("bar", path_ty("T"), vec![])]);
    ast.generics = Generics {
        params: vec![
            GenericParam { kind: GenericParamKind::Lifetime, name: "'a".to_string(), decl: "'a".to_string(), default: None },
            GenericParam { kind: GenericParamKind::Type, name: "T".to_string(), decl: "T: Clone".to_string(), default: Some("u8".to_string()) },
        ],
        where_clause: String::new(),
    };
    let (text, _) = derive(ast);
    assert!(text.starts_with("impl<'a, T: Clone> Builder for Foo<'a, T>  {"));
    assert!(text.contains("impl<'a, T: Clone = u8> FooBuilder<'a, T, false>  {"));
}

#[test]
fn enums_and_unions_are_refused() {
    let mut ast = input("Foo", vec![], vec![]);
    ast.data = Data::Enum { variants: vec![] };
    let (c, diags) = parse(ast);
    assert!(c.is_none());
    assert_eq!(errors(&diags), vec![DiagnosticKind::EnumsUnsupported]);
    let mut ast = input("Foo", vec![], vec![]);
    ast.data = Data::Union;
    let (c, diags) = parse(ast);
    assert!(c.is_none());
    assert_eq!(errors(&diags), vec![DiagnosticKind::UnionsUnsupported]);
}

#[test]
fn tuple_structs_are_refused() {
    let mut ast = input("Foo", vec![], vec![]);
    ast.data = Data::Struct(Fields::Unnamed { span: 3 });
    let (c, diags) = parse(ast);
    assert!(c.is_none());
    assert_eq!(diags.len(), 1);
    assert_eq!(diags[0].kind, DiagnosticKind::UnnamedFieldsUnsupported);
    assert_eq!(diags[0].span, 3);
}

#[test]
fn unknown_container_attribute_is_an_error() {
    let (c, diags) = parse(input("Foo", vec![attr("serde", vec![ident("x")])], vec![]));
    assert!(c.is_some());
    assert_eq!(errors(&diags), vec![DiagnosticKind::UnknownAttribute]);
}

#[test]
fn unknown_solver_is_an_error() {
    let (c, diags) = parse(input(
        "Foo",
        vec![attr("builder", vec![ident("solver"), punct('='), ident("magic")])],
        vec![],
    ));
    assert_eq!(c.unwrap().solver_kind, SolverKind::BruteForce);
    assert_eq!(errors(&diags), vec![DiagnosticKind::UnknownSolver]);
}

#[test]
fn grouped_field_without_inner_type_is_found() {
    let (c, _) = parse(input(
        "Foo",
        vec![group_def("g", "single", None)],
        vec![field("a", option_ty("u8"), vec![in_group("g")]), field("b", path_ty("Option"), vec![in_group("g")])],
    ));
    let c = c.unwrap();
    assert_eq!(kinds(&c), vec![FieldKind::Grouped, FieldKind::Grouped]);
    assert_eq!(missing_setter_type(&c.fields), Some(1));
}

#[test]
fn unit_struct_gets_a_builder() {
    let mut ast = input("Unit", vec![], vec![]);
    ast.data = Data::Struct(Fields::Unit);
    let (text, diags) = derive(ast);
    assert!(diags.is_empty());
    assert!(text.contains("type BuilderImpl = UnitBuilder<>;"));
    assert_eq!(text.matches("pub fn build(self)").count(), 1);
    assert_parses_as_rust(&text);
}

#[test]
fn group_3_repeated_membership_is_an_error() {
    let (c, diags) = parse(input(
        "Foo",
        vec![group_def("baz", "at_least", Some("2"))],
        vec![
            field("bar", option_ty("String"), vec![in_group("baz"), in_group("baz")]),
            field("baz", option_ty("String"), vec![in_group("baz")]),
        ],
    ));
    let c = c.unwrap();
    assert_eq!(c.groups.groups[0].associated_indices, vec![0, 1]);
    assert_eq!(errors(&diags), vec![DiagnosticKind::GroupMemberTwice]);
}

#[test]
fn group_arguments_in_any_base() {
    let (c, diags) = parse(input(
        "Foo",
        vec![
            group_def("a", "exact", Some("0x2")),
            group_def("b", "at_least", Some("0b1")),
            group_def("c", "at_most", Some("0o3usize")),
            group_def("d", "exact", Some("1_0")),
        ],
        vec![],
    ));
    assert!(errors(&diags).is_empty());
    let types: Vec<GroupType> = c.unwrap().groups.groups.iter().map(|g| g.group_type).collect();
    assert_eq!(types, vec![GroupType::Exact(2), GroupType::AtLeast(1), GroupType::AtMost(3), GroupType::Exact(10)]);
}

#[test]
fn group_argument_that_is_no_integer_is_refused() {
    let (c, diags) = parse(input("Foo", vec![group_def("a", "exact", Some("1.5"))], vec![]));
    assert_eq!(c.unwrap().groups.groups.len(), 0);
    assert_eq!(errors(&diags), vec![DiagnosticKind::GroupArgumentUnreadable]);
}

#[test]
fn raw_and_escaped_string_group_names() {
    let (c, diags) = parse(input(
        "Foo",
        vec![group_def("g", "single", None)],
        vec![
            field("a", option_ty("u8"), vec![attr("builder", vec![ident("group"), punct('='), lit("r\"g\"")])]),
            field("b", option_ty("u8"), vec![attr("builder", vec![ident("group"), punct('='), lit("\"\\x67\"")])]),
        ],
    ));
    assert!(diags.is_empty(), "{:?}", diags);
    assert_eq!(c.unwrap().groups.groups[0].associated_indices, vec![0, 1]);
}

fn three_in_group(kind: &str, n: &str) -> DeriveInput {
    input(
        "Foo",
        vec![group_def("quz", kind, Some(n))],
        vec![
            field("bar", option_ty("String"), vec![in_group("quz")]),
            field("baz", option_ty("String"), vec![in_group("quz")]),
            field("qux", option_ty("String"), vec![in_group("quz")]),
        ],
    )
}

#[test]
fn group_at_most_1_all_three_cannot_build() {
    let (text, diags) = derive(three_in_group("at_most", "2"));
    assert!(errors(&diags).is_empty());
    assert!(!text.contains("impl FooBuilder<true, true, true>  {"));
    assert!(text.contains("impl FooBuilder<true, true, false>  {"));
    assert!(text.contains("impl FooBuilder<false, false, false>  {"));
    assert_eq!(text.matches("pub fn build(self)").count(), 7);
}

#[test]
fn group_1_unreachable_bound_gives_no_build() {
    let (text, diags) = derive(input(
        "Foo",
        vec![group_def("baz", "at_least", Some("2"))],
        vec![field("bar", option_ty("String"), vec![in_group("baz")])],
    ));
    assert!(errors(&diags).contains(&DiagnosticKind::GroupNeverSatisfied));
    assert_eq!(text.matches("pub fn build(self)").count(), 0);
}

#[test]
fn optional_mandatory_1_setter_takes_the_inner_type() {
    let (text, _) = derive(input(
        "Foo",
        vec![],
        vec![field("bar", option_ty("String"), vec![attr("builder", vec![ident("mandatory")])])],
    ));
    assert!(text.contains("pub fn bar(self, bar: String) -> FooBuilder<true> {"));
}

#[test]
fn assume_mandatory_1_setter_takes_the_inner_type() {
    let (text, _) = derive(input(
        "Foo",
        vec![attr("builder", vec![ident("assume_mandatory")])],
        vec![field("bar", option_ty("String"), vec![])],
    ));
    assert!(text.contains("pub fn bar(self, bar: String) -> FooBuilder<true> {"));
    assert!(!text.contains("impl FooBuilder<false>  {\n    #[doc = \"Build"));
}

#[test]
fn assume_mandatory_explicit_optional_1_setter_takes_an_option() {
    let (text, _) = derive(input(
        "Foo",
        vec![attr("builder", vec![ident("assume_mandatory")])],
        vec![
            field("bar", option_ty("String"), vec![]),
            field("quz", option_ty("String"), vec![attr("builder", vec![ident("optional")])]),
        ],
    ));
    assert!(text.contains("pub fn quz(self, quz: Option<String>) -> FooBuilder<__BUILDER_CONST0> {"));
}

#[test]
fn option_not_mandatory_1_setter_takes_an_option() {
    let (text, _) = derive(input("Foo", vec![], vec![field("bar", option_ty("String"), vec![])]));
    assert!(text.contains("pub fn bar(self, bar: Option<String>) -> FooBuilder<> {"));
}

#[test]
fn mixed_mandatory_1_build_needs_every_mandatory_field() {
    let (text, _) = derive(input(
        "Foo",
        vec![],
        vec![
            field("bar", path_ty("String"), vec![]),
            field("baz", path_ty("String"), vec![]),
            field("qux", option_ty("String"), vec![]),
        ],
    ));
    assert_eq!(text.matches("pub fn build(self)").count(), 1);
    assert!(text.contains("impl FooBuilder<true, true>  {"));
}
