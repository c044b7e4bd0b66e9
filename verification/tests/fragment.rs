use genesis_rs::bytes::contains_pat;
use genesis_rs::config::Database;
use genesis_rs::fragment::{patch_bootstrap, patch_wiring};

fn mongo_init_block() -> Vec<u8> {
    b"userRepo, err := config.InitializeRepositoriesMongo()\n    if err != nil {\n        log.Fatal(err)\n    }\n\n    userUsecase := config.InitializeUsecasesMongo(userRepo)".to_vec()
}

fn postgres_init_block() -> Vec<u8> {
    b"userRepo, err := config.InitializeRepositoriesPostgres()\n    if err != nil {\n        log.Fatal(err)\n    }\n\n    userUsecase := config.InitializeUsecasesPostgres(userRepo)".to_vec()
}

#[test]
fn bootstrap_with_exactly_the_mongo_block_becomes_the_postgres_block() {
    let mongo = mongo_init_block();
    let postgres = postgres_init_block();
    let (out, hit) = patch_bootstrap(&mongo, &mongo, &postgres, Database::PostgreSql);
    assert!(hit);
    assert_eq!(out, postgres);
    assert!(!contains_pat(&out, &mongo));
}

#[test]
fn bootstrap_inside_a_larger_file_is_swapped_in_place() {
    let mongo = mongo_init_block();
    let postgres = postgres_init_block();
    let mut content = b"func main() {\n    ".to_vec();
    content.extend_from_slice(&mongo);
    content.extend_from_slice(b"\n}\n");
    let (out, hit) = patch_bootstrap(&content, &mongo, &postgres, Database::PostgreSql);
    assert!(hit);
    let mut expected = b"func main() {\n    ".to_vec();
    expected.extend_from_slice(&postgres);
    expected.extend_from_slice(b"\n}\n");
    assert_eq!(out, expected);
    assert!(!contains_pat(&out, &mongo));
}

#[test]
fn bootstrap_without_either_block_is_left_byte_identical() {
    let mongo = mongo_init_block();
    let postgres = postgres_init_block();
    let content = b"func main() {\n    somethingElseEntirely()\n}\n".to_vec();
    let (out, hit) = patch_bootstrap(&content, &mongo, &postgres, Database::PostgreSql);
    assert!(!hit);
    assert_eq!(out, content);
}

#[test]
fn choosing_the_database_already_wired_keeps_its_block() {
    let mongo = mongo_init_block();
    let postgres = postgres_init_block();
    let (out, hit) = patch_bootstrap(&mongo, &mongo, &postgres, Database::MongoDb);
    assert!(hit);
    assert_eq!(out, mongo);
}

#[test]
fn wiring_span_is_replaced_from_declaration_through_constructor() {
    let content = b"package user\n\ntype UserUsecase struct {\n\tuserRepo mongodb.Interface\n}\n\nfunc NewUserUsecase(repo mongodb.Interface) *UserUsecase {\n\treturn &UserUsecase{userRepo: repo}\n}\n\nfunc other() {}\n".to_vec();
    let hdr = b"type UserUsecase struct {".to_vec();
    let ctor = b"func NewUserUsecase(".to_vec();
    let closer = b"}".to_vec();
    let replacement = b"type UserUsecase struct {\n\tuserRepo postgres.Interface\n}\n\nfunc NewUserUsecase(repo postgres.Interface) *UserUsecase {\n\treturn &UserUsecase{userRepo: repo}\n}".to_vec();
    let (out, hit) = patch_wiring(&content, &hdr, &ctor, &closer, &replacement);
    assert!(hit);
    let mut expected = b"package user\n\n".to_vec();
    expected.extend_from_slice(&replacement);
    expected.extend_from_slice(b"\n\nfunc other() {}\n");
    assert_eq!(out, expected);
    assert!(!contains_pat(&out, &b"mongodb".to_vec()));
    assert!(contains_pat(&out, &b"postgres".to_vec()));
}

#[test]
fn wiring_without_the_constructor_is_left_untouched() {
    let content = b"type UserUsecase struct {\n\tuserRepo mongodb.Interface\n}\n".to_vec();
    let hdr = b"type UserUsecase struct {".to_vec();
    let ctor = b"func NewUserUsecase(".to_vec();
    let closer = b"}".to_vec();
    let replacement = b"anything".to_vec();
    let (out, hit) = patch_wiring(&content, &hdr, &ctor, &closer, &replacement);
    assert!(!hit);
    assert_eq!(out, content);
}

#[test]
fn wiring_landmarks_must_start_their_lines() {
    let content = b"// type UserUsecase struct { is only mentioned in prose\n".to_vec();
    let hdr = b"type UserUsecase struct {".to_vec();
    let ctor = b"func NewUserUsecase(".to_vec();
    let closer = b"}".to_vec();
    let replacement = b"anything".to_vec();
    let (out, hit) = patch_wiring(&content, &hdr, &ctor, &closer, &replacement);
    assert!(!hit);
    assert_eq!(out, content);
}

#[test]
fn wiring_closer_skips_the_struct_brace_before_the_constructor() {
    let content = b"type UserUsecase struct {\n\tx int\n}\nfunc NewUserUsecase() *UserUsecase {\n\treturn nil\n}\ntail\n".to_vec();
    let hdr = b"type UserUsecase struct {".to_vec();
    let ctor = b"func NewUserUsecase(".to_vec();
    let closer = b"}".to_vec();
    let replacement = b"REPLACED".to_vec();
    let (out, hit) = patch_wiring(&content, &hdr, &ctor, &closer, &replacement);
    assert!(hit);
    assert_eq!(out, b"REPLACED\ntail\n".to_vec());
}
