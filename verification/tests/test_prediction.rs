#[test]
fn test_linear_regression() {}

#[test]
fn test_generate_predictions() {}
