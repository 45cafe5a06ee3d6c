use gixor::GixorError;
use gixor::errs_vec_to_result;
use gixor::merge_errors;
use gixor::single_err_or_errs_array;
use gixor::vec_result_to_result_vec;

#[test]
fn test_error_display() {
    assert_eq!(
        GixorError::Json("hoge".to_string()).to_message(),
        "JSON error: hoge"
    );
    assert_eq!(GixorError::IO("hoge".to_string()).to_message(), "IO error: hoge");
    assert_eq!(
        GixorError::BoilerplateNotFound("name".to_string()).to_message(),
        "name: boilerplate not found"
    );
    assert_eq!(GixorError::Git("hoge".to_string()).to_message(), "Git error: hoge");
    assert_eq!(
        GixorError::AliasNotFound("hoge".into()).to_message(),
        "hoge: alias not found"
    );
    assert_eq!(
        GixorError::FileNotFound("hoge".into()).to_message(),
        "hoge: file not found"
    );
    assert_eq!(
        GixorError::RepositoryNotFound("hoge".into()).to_message(),
        "hoge: repository not found"
    );
    assert_eq!(
        GixorError::Fatal("message".to_string()).to_message(),
        "Fatal error: message"
    );
    assert_eq!(
        GixorError::Array(vec![
            GixorError::Fatal("hoge1".to_string()),
            GixorError::Fatal("hoge2".to_string())
        ])
        .to_message(),
        "Fatal error: hoge1Fatal error: hoge2"
    );
    assert_eq!(
        GixorError::Alias("hoge: alias not found".to_string()).to_message(),
        "hoge: alias not found"
    )
}

#[test]
fn test_vec_result_to_result_vec() {
    let value = vec![Ok(1), Ok(2), Ok(3)];
    let result = vec_result_to_result_vec(value).unwrap();
    assert_eq!(result, vec![1, 2, 3]);
}

#[test]
fn test_single_error_is_not_wrapped() {
    let value: Vec<gixor::Result<i32>> =
        vec![Ok(1), Err(GixorError::Fatal("boom".to_string())), Ok(3)];
    let result = vec_result_to_result_vec(value);
    assert!(matches!(result, Err(GixorError::Fatal(_))));
}

#[test]
fn test_two_errors_are_wrapped() {
    let value: Vec<gixor::Result<i32>> = vec![
        Err(GixorError::Fatal("one".to_string())),
        Ok(2),
        Err(GixorError::Git("two".to_string())),
    ];
    match vec_result_to_result_vec(value) {
        Err(GixorError::Array(errs)) => {
            assert_eq!(errs.len(), 2);
            assert!(matches!(errs[0], GixorError::Fatal(_)));
            assert!(matches!(errs[1], GixorError::Git(_)));
        }
        _ => panic!("expected a composite error"),
    }
}

#[test]
fn test_errs_vec_to_result_empty() {
    let r = errs_vec_to_result(Vec::new(), 7);
    assert_eq!(r.unwrap(), 7);
}

#[test]
fn test_single_err_or_errs_array_single() {
    let r: gixor::Result<()> =
        single_err_or_errs_array(vec![GixorError::Alias("a".to_string())]);
    assert!(matches!(r, Err(GixorError::Alias(_))));
}

#[test]
fn test_merge_errors() {
    let ok: gixor::Result<()> = merge_errors(vec![Ok(()), Ok(())]);
    assert!(ok.is_ok());
    let single = merge_errors(vec![Ok(()), Err(GixorError::Git("x".to_string()))]);
    assert!(matches!(single, Err(GixorError::Git(_))));
    let double = merge_errors(vec![
        Err(GixorError::Git("x".to_string())),
        Err(GixorError::Git("y".to_string())),
    ]);
    assert!(matches!(double, Err(GixorError::Array(_))));
}
