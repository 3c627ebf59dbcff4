use std::hash::{DefaultHasher, Hash, Hasher};
use cuy::optimize::{
    check_item, compute_labels_dictionary, extract_target, produce_assembly,
    sanitize_assembly_line, try_extract_target, try_produce_assembly, validate_item,
    AssemblyError, FnSignature, PathComponent, SignatureError,
};

fn components(path: &str) -> Vec<PathComponent> {
    let mut out = vec![PathComponent::Other];
    for part in path.split('/').filter(|p| !p.is_empty()) {
        out.push(PathComponent::Normal(part.to_string()));
    }
    out
}

#[test]
fn target_is_two_levels_above_build() {
    let path = "/home/dev/cuy/target/thumbv7em-none-eabihf/debug/build/m-rt-0123abcd/out";
    assert_eq!(
        Some("thumbv7em-none-eabihf".to_string()),
        try_extract_target(&components(path))
    );
    // the last `build` component counts
    let path = "/build/target/armv7r-none-eabi/release/build/x/out";
    assert_eq!(Some("armv7r-none-eabi".to_string()), try_extract_target(&components(path)));
    assert_eq!("armv7r-none-eabi", extract_target(&components(path)));
}

#[test]
fn target_cannot_be_determined() {
    assert_eq!(None, try_extract_target(&components("/home/dev/out")));
    assert_eq!(None, try_extract_target(&[]));
    // `build` right below the root: the component two above it is not a normal one
    assert_eq!(None, try_extract_target(&components("/x/build/out")));
}

fn signature() -> FnSignature {
    FnSignature {
        is_const: false,
        is_async: false,
        generics_lt: false,
        generics_params: 0,
        generics_gt: false,
        where_clause: false,
        abi: Some("C".to_string()),
        is_variadic: false,
    }
}

#[test]
fn only_plain_extern_c_functions_qualify() {
    assert_eq!(Ok(()), check_item(&signature()));
    validate_item(&signature());
    let mut sig = signature();
    sig.is_const = true;
    sig.is_async = true;
    assert_eq!(Err(SignatureError::Const), check_item(&sig));
    let mut sig = signature();
    sig.is_async = true;
    assert_eq!(Err(SignatureError::Async), check_item(&sig));
    let mut sig = signature();
    sig.generics_params = 1;
    assert_eq!(Err(SignatureError::Generics), check_item(&sig));
    let mut sig = signature();
    sig.where_clause = true;
    assert_eq!(Err(SignatureError::Generics), check_item(&sig));
    let mut sig = signature();
    sig.abi = None;
    assert_eq!(Err(SignatureError::MissingAbi), check_item(&sig));
    let mut sig = signature();
    sig.abi = Some("Rust".to_string());
    sig.is_variadic = true;
    assert_eq!(
        Err(SignatureError::NotC("Rust".to_string())),
        check_item(&sig)
    );
    let mut sig = signature();
    sig.is_variadic = true;
    assert_eq!(Err(SignatureError::Variadic), check_item(&sig));
}

const ASSEMBLY: &str = "\t.text
\t.file\t\"input.rs\"
\t.section\t.text._start,\"ax\",%progbits
\t.globl\t_start
\t.type\t_start,%function
_start:
\t.fnstart
\tcmp\tr0, r1
\tbhs\t.LBB0_2
.LBB0_1:
\tstr\tr2, [r0], #4
\tcmp\tr0, r1
\tblo\t.LBB0_1
.LBB0_2:
\tbx\tlr
.Lfunc_end0:
\t.size\t_start, .Lfunc_end0-_start
\t.fnend
\t.section\t\".note.GNU-stack\",\"\",%progbits
";

#[test]
fn dictionary_holds_the_local_labels_in_order() {
    let dict = compute_labels_dictionary(ASSEMBLY);
    assert_eq!(3, dict.len());
    assert_eq!(".LBB0_1", dict.label(0));
    assert_eq!(".LBB0_2", dict.label(1));
    assert_eq!(".Lfunc_end0", dict.label(2));
    let suffix = &dict.replacement(0)[".LBB0_1".len()..];
    // the names end in the hash of the whole assembly, in decimal
    let mut hasher = DefaultHasher::new();
    ASSEMBLY.hash(&mut hasher);
    assert_eq!(hasher.finish().to_string(), suffix);
    for i in 0..dict.len() {
        assert_eq!(format!("{}{}", dict.label(i), suffix), dict.replacement(i));
    }
    // the same assembly gives the same names
    assert_eq!(dict.replacement(2), compute_labels_dictionary(ASSEMBLY).replacement(2));
}

#[test]
fn sanitizing_escapes_braces_and_renames_labels() {
    let dict = compute_labels_dictionary(ASSEMBLY);
    let suffix = dict.replacement(0)[".LBB0_1".len()..].to_string();
    assert_eq!(
        format!("\tblo\t.LBB0_1{suffix}"),
        sanitize_assembly_line("\tblo\t.LBB0_1", &dict)
    );
    assert_eq!(
        "\tpush\t{{r4, lr}}",
        sanitize_assembly_line("\tpush\t{r4, lr}", &dict)
    );
    let empty = compute_labels_dictionary("");
    assert_eq!(0, empty.len());
    assert_eq!("{{}}{{", sanitize_assembly_line("{}{", &empty));
}

#[test]
fn keeps_only_the_function() {
    let dict = compute_labels_dictionary(ASSEMBLY);
    let s = dict.replacement(0)[".LBB0_1".len()..].to_string();
    let expected = format!(
        "\t.fnstart
\tcmp\tr0, r1
\tbhs\t.LBB0_2{s}
.LBB0_1{s}:
\tstr\tr2, [r0], #4
\tcmp\tr0, r1
\tblo\t.LBB0_1{s}
.LBB0_2{s}:
\tbx\tlr
.Lfunc_end0{s}:
\t.fnend
"
    );
    assert_eq!(Ok(expected.clone()), try_produce_assembly(ASSEMBLY));
    assert_eq!(expected, produce_assembly(ASSEMBLY));
}

#[test]
fn more_than_one_function_is_refused() {
    let two = format!("{ASSEMBLY}{ASSEMBLY}");
    assert_eq!(Err(AssemblyError::MoreThanOneFunction), try_produce_assembly(&two));
    assert_eq!(Ok(String::new()), try_produce_assembly("foo:\n\tbx lr\n"));
    assert_eq!(
        Ok(".fnstart\n".to_string()),
        try_produce_assembly(".fnstart\r\n.size x, 4\r\n")
    );
}
