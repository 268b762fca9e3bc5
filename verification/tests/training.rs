use drift_monitor::ranking::rank_descending;
use drift_monitor::training::{
    binary_classification_model_comparison_type_name, compute_feature_importances_section_props,
    compute_feature_names, compute_summary_section_props, model_type_name,
    multiclass_classification_model_comparison_type_name, regression_model_comparison_type_name,
    BinaryClassificationComparisonMetric, FeatureGroup, FeatureImportance, Model, ModelAlgorithm,
    ModelInner, MulticlassClassificationComparisonMetric, RegressionComparisonMetric,
};

fn model(inner: ModelInner, algorithm: ModelAlgorithm) -> Model {
    Model {
        inner,
        algorithm,
        column_stats_count: 4,
        train_row_count: 800,
        test_row_count: 200,
        feature_groups: Vec::new(),
        feature_importances: Vec::new(),
    }
}

fn groups() -> Vec<FeatureGroup> {
    vec![
        FeatureGroup::Identity { source_column_name: "age".to_owned() },
        FeatureGroup::Normalized { source_column_name: "income".to_owned() },
        FeatureGroup::OneHotEncoded {
            source_column_name: "sex".to_owned(),
            variants: vec!["female".to_owned(), "male".to_owned()],
        },
        FeatureGroup::BagOfWords {
            source_column_name: "note".to_owned(),
            ngrams: vec!["chest".to_owned(), "chest pain".to_owned()],
        },
        FeatureGroup::WordEmbedding { source_column_name: "text".to_owned(), size: 11 },
    ]
}

#[test]
fn ranking_is_descending_and_stable() {
    assert_eq!(rank_descending(&vec![]), Vec::<usize>::new());
    assert_eq!(rank_descending(&vec![5]), vec![0]);
    assert_eq!(rank_descending(&vec![1, 3, 2]), vec![1, 2, 0]);
    assert_eq!(rank_descending(&vec![2, 7, 2, 7, 2]), vec![1, 3, 0, 2, 4]);
    assert_eq!(rank_descending(&vec![i64::MIN, i64::MAX, 0, -1]), vec![1, 2, 3, 0]);
    assert_eq!(rank_descending(&vec![4, 4, 4]), vec![0, 1, 2]);
}

#[test]
fn names_of_model_kinds() {
    let regressor = ModelInner::Regressor(RegressionComparisonMetric::R2);
    let binary = ModelInner::BinaryClassifier(BinaryClassificationComparisonMetric::Aucroc);
    let multiclass =
        ModelInner::MulticlassClassifier(MulticlassClassificationComparisonMetric::Accuracy);
    assert_eq!(model_type_name(&model(regressor, ModelAlgorithm::Linear)), "Linear Regressor");
    assert_eq!(
        model_type_name(&model(regressor, ModelAlgorithm::Tree)),
        "Gradient Boosted Tree Regressor"
    );
    assert_eq!(
        model_type_name(&model(binary, ModelAlgorithm::Linear)),
        "Linear Binary Classifier"
    );
    assert_eq!(
        model_type_name(&model(binary, ModelAlgorithm::Tree)),
        "Gradient Boosted Tree Binary Classifier"
    );
    assert_eq!(
        model_type_name(&model(multiclass, ModelAlgorithm::Linear)),
        "Linear Multiclass Classifier"
    );
    assert_eq!(
        model_type_name(&model(multiclass, ModelAlgorithm::Tree)),
        "Gradient Boosted Tree Multiclass Classifier"
    );
}

#[test]
fn names_of_comparison_metrics() {
    assert_eq!(
        regression_model_comparison_type_name(&RegressionComparisonMetric::MeanAbsoluteError),
        "Mean Absolute Error"
    );
    assert_eq!(
        regression_model_comparison_type_name(&RegressionComparisonMetric::MeanSquaredError),
        "Mean Squared Error"
    );
    assert_eq!(
        regression_model_comparison_type_name(&RegressionComparisonMetric::RootMeanSquaredError),
        "Root Mean Squared Error"
    );
    assert_eq!(regression_model_comparison_type_name(&RegressionComparisonMetric::R2), "R2");
    assert_eq!(
        binary_classification_model_comparison_type_name(
            &BinaryClassificationComparisonMetric::Aucroc
        ),
        "Area Under the Receiver Operating Characteristic Curve"
    );
    assert_eq!(
        multiclass_classification_model_comparison_type_name(
            &MulticlassClassificationComparisonMetric::Accuracy
        ),
        "Accuracy"
    );
}

#[test]
fn summary_counts_the_target_column() {
    let binary = ModelInner::BinaryClassifier(BinaryClassificationComparisonMetric::Aucroc);
    let props = compute_summary_section_props(&model(binary, ModelAlgorithm::Tree));
    assert_eq!(props.chosen_model_type_name, "Gradient Boosted Tree Binary Classifier");
    assert_eq!(props.column_count, 5);
    assert_eq!(
        props.model_comparison_metric_type_name,
        "Area Under the Receiver Operating Characteristic Curve"
    );
    assert_eq!(props.train_row_count, 800);
    assert_eq!(props.test_row_count, 200);
    let regressor = ModelInner::Regressor(RegressionComparisonMetric::MeanSquaredError);
    let props = compute_summary_section_props(&model(regressor, ModelAlgorithm::Linear));
    assert_eq!(props.model_comparison_metric_type_name, "Mean Squared Error");
}

#[test]
fn feature_names_by_group() {
    let names = compute_feature_names(&groups());
    let expected = vec![
        "age",
        "income",
        "sex = OOV",
        "sex = female",
        "sex = male",
        "note contains chest",
        "note contains chest pain",
        "text word embedding value 0",
        "text word embedding value 1",
        "text word embedding value 2",
        "text word embedding value 3",
        "text word embedding value 4",
        "text word embedding value 5",
        "text word embedding value 6",
        "text word embedding value 7",
        "text word embedding value 8",
        "text word embedding value 9",
        "text word embedding value 10",
    ];
    assert_eq!(names, expected);
    assert_eq!(compute_feature_names(&Vec::new()), Vec::<String>::new());
    let empty = vec![
        FeatureGroup::OneHotEncoded { source_column_name: "c".to_owned(), variants: Vec::new() },
        FeatureGroup::BagOfWords { source_column_name: "b".to_owned(), ngrams: Vec::new() },
        FeatureGroup::WordEmbedding { source_column_name: "w".to_owned(), size: 0 },
    ];
    assert_eq!(compute_feature_names(&empty), vec!["c = OOV"]);
}

fn item(name: &str, value: i64) -> FeatureImportance {
    FeatureImportance { feature_name: name.to_owned(), feature_importance_value: value }
}

#[test]
fn feature_importances_are_ranked() {
    let mut model = model(
        ModelInner::Regressor(RegressionComparisonMetric::R2),
        ModelAlgorithm::Linear,
    );
    model.feature_groups = vec![
        FeatureGroup::Identity { source_column_name: "a".to_owned() },
        FeatureGroup::Identity { source_column_name: "b".to_owned() },
        FeatureGroup::Identity { source_column_name: "c".to_owned() },
        FeatureGroup::Identity { source_column_name: "d".to_owned() },
    ];
    model.feature_importances = vec![100_000, 500_000, 100_000, 300_000];
    let props = compute_feature_importances_section_props(&model);
    assert_eq!(props.n_columns, 4);
    assert_eq!(props.n_features, 4);
    let expected =
        vec![item("b", 500_000), item("d", 300_000), item("a", 100_000), item("c", 100_000)];
    assert_eq!(props.feature_importances_table_rows, expected);
    assert_eq!(props.feature_importances_chart_values, expected);
}

#[test]
fn feature_importances_pair_as_far_as_both_reach() {
    let mut model = model(
        ModelInner::Regressor(RegressionComparisonMetric::R2),
        ModelAlgorithm::Linear,
    );
    model.feature_groups = vec![
        FeatureGroup::Identity { source_column_name: "a".to_owned() },
        FeatureGroup::Identity { source_column_name: "b".to_owned() },
    ];
    model.feature_importances = vec![1, 2, 3];
    let props = compute_feature_importances_section_props(&model);
    assert_eq!(props.n_features, 2);
    assert_eq!(props.feature_importances_table_rows, vec![item("b", 2), item("a", 1)]);
    model.feature_importances = vec![7];
    let props = compute_feature_importances_section_props(&model);
    assert_eq!(props.n_features, 1);
    assert_eq!(props.feature_importances_chart_values, vec![item("a", 7)]);
    model.feature_importances = Vec::new();
    let props = compute_feature_importances_section_props(&model);
    assert_eq!(props.n_features, 0);
    assert!(props.feature_importances_table_rows.is_empty());
}

#[test]
fn feature_importances_are_cut_for_chart_and_table() {
    let mut model = model(
        ModelInner::Regressor(RegressionComparisonMetric::R2),
        ModelAlgorithm::Tree,
    );
    model.feature_groups =
        vec![FeatureGroup::WordEmbedding { source_column_name: "w".to_owned(), size: 1_200 }];
    model.feature_importances = (0..1_200).collect();
    let props = compute_feature_importances_section_props(&model);
    assert_eq!(props.n_features, 1_200);
    assert_eq!(props.feature_importances_table_rows.len(), 1_000);
    assert_eq!(props.feature_importances_chart_values.len(), 100);
    assert_eq!(
        props.feature_importances_table_rows[0],
        item("w word embedding value 1199", 1_199)
    );
    assert_eq!(
        props.feature_importances_table_rows[999],
        item("w word embedding value 200", 200)
    );
    assert_eq!(
        props.feature_importances_chart_values[99],
        item("w word embedding value 1100", 1_100)
    );
}
