use std::collections::BTreeMap;
use stof_github::error::GitHubError;
use stof_github::format::FetchEvent;
use stof_github::format::FetchStep;
use stof_github::GitHubFormat;
use stof_github::GitHubLibrary;
use stof_github::value::Shape;
use stof_github::value::Value;

fn pair(name: &str, value: &str) -> (String, String) {
    (name.to_string(), value.to_string())
}

fn default_pairs() -> Vec<(String, String)> {
    vec![
        pair("Accept", "application/vnd.github.raw+json"),
        pair("X-GitHub-Api-Version", "2022-11-28"),
    ]
}

fn string(text: &str) -> Value {
    Value { text: text.to_string(), shape: Shape::Str }
}

fn other(text: &str) -> Value {
    Value { text: text.to_string(), shape: Shape::Other }
}

fn tuple(parts: Vec<Value>) -> Value {
    Value { text: "tup(..)".to_string(), shape: Shape::Tuple(parts) }
}

fn array(items: Vec<Value>) -> Value {
    Value { text: "[..]".to_string(), shape: Shape::Array(items) }
}

fn header(name: &str, value: &str) -> Value {
    tuple(vec![string(name), string(value)])
}

fn add_format(parameters: Vec<Value>) -> GitHubFormat {
    match GitHubLibrary::default().call("addFormat", &parameters) {
        Ok(format) => format,
        Err(error) => panic!("{}", error.message()),
    }
}

fn request_headers(format: &GitHubFormat) -> Vec<(String, String)> {
    match format.get("x", FetchEvent::Begin) {
        FetchStep::Send(request) => request.headers,
        FetchStep::Finish(_) => panic!("the fetch ended before anything was sent"),
    }
}

#[test]
fn scope_is_github() {
    assert_eq!(GitHubLibrary::default().scope(), "GitHub");
    assert_eq!(GitHubLibrary.scope(), "GitHub");
}

#[test]
fn add_format_with_owner_and_repo_answers_to_the_repo() {
    let format = add_format(vec![string("dev-formata-io"), string("stof")]);
    assert_eq!(format.format(), "github:stof");
    assert_eq!(format.owner, "dev-formata-io");
    assert_eq!(format.repo, "stof");
    assert_eq!(format.repo_id, "stof");
    assert_eq!(format.headers.to_vec(), default_pairs());
}

#[test]
fn add_format_with_a_string_third_argument_takes_it_as_id() {
    let format = add_format(vec![string("dev-formata-io"), string("stof"), string("formata")]);
    assert_eq!(format.format(), "github:formata");
    assert_eq!(format.repo, "stof");
    assert_eq!(format.headers.to_vec(), default_pairs());
    assert_eq!(
        format.url("a.json"),
        "https://api.github.com/repos/dev-formata-io/stof/contents/a.json"
    );
}

#[test]
fn add_format_with_two_strings_takes_the_fourth_as_id() {
    let format = add_format(vec![string("o"), string("r"), string("third"), string("fourth")]);
    assert_eq!(format.format(), "github:fourth");
}

#[test]
fn add_format_with_id_then_headers() {
    let format = add_format(vec![
        string("o"),
        string("r"),
        string("mine"),
        array(vec![header("Authorization", "Bearer t")]),
    ]);
    assert_eq!(format.format(), "github:mine");
    assert_eq!(
        format.headers.to_vec(),
        vec![
            pair("Accept", "application/vnd.github.raw+json"),
            pair("X-GitHub-Api-Version", "2022-11-28"),
            pair("Authorization", "Bearer t"),
        ]
    );
}

#[test]
fn add_format_with_headers_then_id() {
    let format = add_format(vec![
        string("o"),
        string("r"),
        array(vec![header("Authorization", "Bearer t")]),
        string("mine"),
    ]);
    assert_eq!(format.format(), "github:mine");
    assert_eq!(format.headers.get("Authorization"), Some(&"Bearer t".to_string()));
    assert_eq!(format.headers.len(), 3);
}

#[test]
fn supplied_header_replaces_a_default_one() {
    let format = add_format(vec![
        string("o"),
        string("r"),
        array(vec![header("Accept", "application/json"), header("X-Extra", "1")]),
    ]);
    assert_eq!(format.format(), "github:r");
    assert_eq!(
        format.headers.to_vec(),
        vec![
            pair("Accept", "application/json"),
            pair("X-GitHub-Api-Version", "2022-11-28"),
            pair("X-Extra", "1"),
        ]
    );
    assert_eq!(request_headers(&format), format.headers.to_vec());
}

#[test]
fn later_supplied_header_wins() {
    let format = add_format(vec![
        string("o"),
        string("r"),
        array(vec![header("X-A", "1"), header("X-B", "2"), header("X-A", "3")]),
        array(vec![header("X-B", "4"), header("X-GitHub-Api-Version", "2099-01-01")]),
    ]);
    assert_eq!(
        format.headers.to_vec(),
        vec![
            pair("Accept", "application/vnd.github.raw+json"),
            pair("X-GitHub-Api-Version", "2099-01-01"),
            pair("X-A", "3"),
            pair("X-B", "4"),
        ]
    );
}

#[test]
fn header_parts_are_taken_by_their_text() {
    let format = add_format(vec![
        string("o"),
        string("r"),
        array(vec![tuple(vec![other("42"), array(vec![])])]),
    ]);
    assert_eq!(format.headers.get("42"), Some(&"[..]".to_string()));
}

#[test]
fn owner_and_repo_are_taken_by_their_text() {
    let format = add_format(vec![other("12"), other("true")]);
    assert_eq!(format.owner, "12");
    assert_eq!(format.repo, "true");
    assert_eq!(format.format(), "github:true");
}

#[test]
fn malformed_list_items_are_skipped() {
    let format = add_format(vec![
        string("o"),
        string("r"),
        array(vec![
            string("Accept"),
            tuple(vec![string("only-one")]),
            tuple(vec![string("a"), string("b"), string("c")]),
            tuple(vec![]),
            other("null"),
            array(vec![header("X-Nested", "1")]),
            header("X-Kept", "yes"),
        ]),
    ]);
    assert_eq!(format.format(), "github:r");
    assert_eq!(
        format.headers.to_vec(),
        vec![
            pair("Accept", "application/vnd.github.raw+json"),
            pair("X-GitHub-Api-Version", "2022-11-28"),
            pair("X-Kept", "yes"),
        ]
    );
}

#[test]
fn other_shapes_of_optional_arguments_are_ignored() {
    let format = add_format(vec![
        string("o"),
        string("r"),
        other("12"),
        header("Accept", "text/plain"),
    ]);
    assert_eq!(format.format(), "github:r");
    assert_eq!(format.headers.to_vec(), default_pairs());
}

#[test]
fn arguments_after_the_fourth_are_ignored() {
    let format = add_format(vec![
        string("o"),
        string("r"),
        other("null"),
        other("null"),
        string("fifth"),
        array(vec![header("X-Sixth", "1")]),
    ]);
    assert_eq!(format.format(), "github:r");
    assert_eq!(format.headers.to_vec(), default_pairs());
}

#[test]
fn add_format_without_arguments_is_missing_arguments() {
    let result = GitHubLibrary::default().call("addFormat", &Vec::new());
    assert!(matches!(result, Err(GitHubError::MissingArguments)));
}

#[test]
fn add_format_with_one_argument_is_missing_arguments() {
    let result = GitHubLibrary::default().call("addFormat", &vec![string("dev-formata-io")]);
    let error = match result {
        Ok(_) => panic!("one argument was enough"),
        Err(error) => error,
    };
    assert!(matches!(error, GitHubError::MissingArguments));
    assert_eq!(
        error.message(),
        "GitHub.addFormat requires at least 2 parameters: GitHub.addFormat(owner: str, repo: str, repo_id?: str, headers?: vec)"
    );
}

#[test]
fn unknown_function_is_refused_by_name() {
    let result = GitHubLibrary::default().call("removeFormat", &vec![string("o"), string("r")]);
    let error = match result {
        Ok(_) => panic!("an unknown function was called"),
        Err(error) => error,
    };
    assert_eq!(
        error.message(),
        "Could not execute 'removeFormat' in the GitHub library"
    );
    assert!(matches!(error, GitHubError::UnknownFunction(name) if name == "removeFormat"));
}

#[test]
fn function_names_are_matched_exactly() {
    let parameters = vec![string("o"), string("r")];
    assert!(matches!(
        GitHubLibrary::default().call("addformat", &parameters),
        Err(GitHubError::UnknownFunction(_))
    ));
    assert!(matches!(
        GitHubLibrary::default().call("", &parameters),
        Err(GitHubError::UnknownFunction(name)) if name.is_empty()
    ));
    assert!(matches!(
        GitHubLibrary::default().call("addFormat ", &Vec::new()),
        Err(GitHubError::UnknownFunction(_))
    ));
}

#[test]
fn registering_again_replaces_the_earlier_format() {
    let mut table: BTreeMap<String, GitHubFormat> = BTreeMap::new();
    let first = add_format(vec![
        string("o"),
        string("r"),
        array(vec![header("Authorization", "old")]),
    ]);
    let second = add_format(vec![
        string("o"),
        string("r"),
        array(vec![header("Authorization", "new")]),
    ]);
    assert_eq!(first.format(), second.format());
    table.insert(first.format(), first);
    table.insert(second.format(), second);
    assert_eq!(table.len(), 1);
    let served = table.get("github:r").unwrap();
    assert_eq!(
        request_headers(served),
        vec![
            pair("Accept", "application/vnd.github.raw+json"),
            pair("X-GitHub-Api-Version", "2022-11-28"),
            pair("Authorization", "new"),
        ]
    );
}

#[test]
fn register_then_plan_the_import_of_a_file() {
    let format = add_format(vec![string("dev-formata-io"), string("stof")]);
    assert_eq!(format.format(), "github:stof");
    let request = match format.get("web/deno.json", FetchEvent::Begin) {
        FetchStep::Send(request) => request,
        FetchStep::Finish(_) => panic!("the fetch ended before anything was sent"),
    };
    assert_eq!(
        request.url,
        "https://api.github.com/repos/dev-formata-io/stof/contents/web/deno.json"
    );
    assert_eq!(request.headers, default_pairs());
}
