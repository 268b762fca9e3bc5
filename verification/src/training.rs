//! What the training pages show of a model: its kind, the metric by which
//! candidate models were compared, its size, the names of its features and
//! their importances.

use vstd::prelude::*;
use vstd::string::StringExecFns;
use crate::convert::u64_to_usize;
use crate::ranking::{rank_descending, ranking_of};
use crate::text::{decimal_digits, decimal_text};

verus! {

/// The most feature importances that the chart shows.
pub const TRAINING_IMPORTANCES_MAX_FEATURE_IMPORTANCES_TO_SHOW_IN_CHART: usize = 100;

/// The most feature importances that the table shows.
pub const TRAINING_IMPORTANCES_MAX_FEATURE_IMPORTANCES_TO_SHOW_IN_TABLE: usize = 1_000;

/// The metric by which candidate regressors were compared.
#[derive(Clone, Copy, Debug, PartialEq, Eq, Structural, Hash)]
pub enum RegressionComparisonMetric {
    MeanAbsoluteError,
    MeanSquaredError,
    RootMeanSquaredError,
    R2,
}

/// The metric by which candidate binary classifiers were compared.
#[derive(Clone, Copy, Debug, PartialEq, Eq, Structural, Hash)]
pub enum BinaryClassificationComparisonMetric {
    Aucroc,
}

/// The metric by which candidate multiclass classifiers were compared.
#[derive(Clone, Copy, Debug, PartialEq, Eq, Structural, Hash)]
pub enum MulticlassClassificationComparisonMetric {
    Accuracy,
}

/// The family of the model that training chose.
#[derive(Clone, Copy, Debug, PartialEq, Eq, Structural, Hash)]
pub enum ModelAlgorithm {
    Linear,
    Tree,
}

/// The task of a model, with the metric by which its candidates were
/// compared.
#[derive(Clone, Copy, Debug, PartialEq, Eq, Structural, Hash)]
pub enum ModelInner {
    Regressor(RegressionComparisonMetric),
    BinaryClassifier(BinaryClassificationComparisonMetric),
    MulticlassClassifier(MulticlassClassificationComparisonMetric),
}

/// How one source column is turned into features.
#[derive(Clone, Debug, PartialEq, Eq)]
pub enum FeatureGroup {
    /// The column as it is: one feature.
    Identity { source_column_name: String },
    /// The column, normalized: one feature.
    Normalized { source_column_name: String },
    /// One feature for values outside the variants, then one for each variant.
    OneHotEncoded { source_column_name: String, variants: Vec<String> },
    /// One feature for each n-gram.
    BagOfWords { source_column_name: String, ngrams: Vec<String> },
    /// One feature for each dimension of the embedding.
    WordEmbedding { source_column_name: String, size: usize },
}

/// What the pages read of a trained model.
#[derive(Clone, Debug, PartialEq, Eq)]
pub struct Model {
    pub inner: ModelInner,
    pub algorithm: ModelAlgorithm,
    /// The number of columns for which statistics were kept: all but the
    /// target.
    pub column_stats_count: usize,
    pub train_row_count: u64,
    pub test_row_count: u64,
    pub feature_groups: Vec<FeatureGroup>,
    /// One importance for each feature, in fixed-point units.
    pub feature_importances: Vec<i64>,
}

/// The summary of a training run.
#[derive(Clone, Debug, PartialEq, Eq)]
pub struct TrainingSummarySectionProps {
    pub chosen_model_type_name: String,
    pub column_count: usize,
    pub model_comparison_metric_type_name: String,
    pub train_row_count: usize,
    pub test_row_count: usize,
}

/// A feature and its importance, in fixed-point units.
#[derive(Clone, Debug, PartialEq, Eq)]
pub struct FeatureImportance {
    pub feature_name: String,
    pub feature_importance_value: i64,
}

/// The feature importances of a model, most important first.
#[derive(Clone, Debug, PartialEq, Eq)]
pub struct FeatureImportancesSectionProps {
    pub n_columns: usize,
    pub n_features: usize,
    pub feature_importances_chart_values: Vec<FeatureImportance>,
    pub feature_importances_table_rows: Vec<FeatureImportance>,
}

/// The name of a comparison metric for regressors.
pub open spec fn regression_metric_name(metric: RegressionComparisonMetric) -> Seq<char> {
    match metric {
        RegressionComparisonMetric::MeanAbsoluteError => "Mean Absolute Error"@,
        RegressionComparisonMetric::MeanSquaredError => "Mean Squared Error"@,
        RegressionComparisonMetric::RootMeanSquaredError => "Root Mean Squared Error"@,
        RegressionComparisonMetric::R2 => "R2"@,
    }
}

/// The name of the comparison metric of a model.
pub open spec fn comparison_metric_name(inner: ModelInner) -> Seq<char> {
    match inner {
        ModelInner::Regressor(metric) => regression_metric_name(metric),
        ModelInner::BinaryClassifier(_) =>
            "Area Under the Receiver Operating Characteristic Curve"@,
        ModelInner::MulticlassClassifier(_) => "Accuracy"@,
    }
}

/// The name of the kind of a model.
pub open spec fn type_name_of(inner: ModelInner, algorithm: ModelAlgorithm) -> Seq<char> {
    match (inner, algorithm) {
        (ModelInner::Regressor(_), ModelAlgorithm::Linear) => "Linear Regressor"@,
        (ModelInner::Regressor(_), ModelAlgorithm::Tree) => "Gradient Boosted Tree Regressor"@,
        (ModelInner::BinaryClassifier(_), ModelAlgorithm::Linear) => "Linear Binary Classifier"@,
        (ModelInner::BinaryClassifier(_), ModelAlgorithm::Tree) =>
            "Gradient Boosted Tree Binary Classifier"@,
        (ModelInner::MulticlassClassifier(_), ModelAlgorithm::Linear) =>
            "Linear Multiclass Classifier"@,
        (ModelInner::MulticlassClassifier(_), ModelAlgorithm::Tree) =>
            "Gradient Boosted Tree Multiclass Classifier"@,
    }
}

/// The name of a comparison metric for regressors.
pub fn regression_model_comparison_type_name(metric: &RegressionComparisonMetric) -> (r: String)
    ensures
        r@ == regression_metric_name(*metric),
{
    match metric {
        RegressionComparisonMetric::MeanAbsoluteError => "Mean Absolute Error".to_owned(),
        RegressionComparisonMetric::MeanSquaredError => "Mean Squared Error".to_owned(),
        RegressionComparisonMetric::RootMeanSquaredError => "Root Mean Squared Error".to_owned(),
        RegressionComparisonMetric::R2 => "R2".to_owned(),
    }
}

/// The name of a comparison metric for binary classifiers.
pub fn binary_classification_model_comparison_type_name(
    metric: &BinaryClassificationComparisonMetric,
) -> (r: String)
    ensures
        r@ == "Area Under the Receiver Operating Characteristic Curve"@,
{
    match metric {
        BinaryClassificationComparisonMetric::Aucroc => {
            "Area Under the Receiver Operating Characteristic Curve".to_owned()
        },
    }
}

/// The name of a comparison metric for multiclass classifiers.
pub fn multiclass_classification_model_comparison_type_name(
    metric: &MulticlassClassificationComparisonMetric,
) -> (r: String)
    ensures
        r@ == "Accuracy"@,
{
    match metric {
        MulticlassClassificationComparisonMetric::Accuracy => "Accuracy".to_owned(),
    }
}

/// The name of the kind of a model, such as "Linear Regressor".
pub fn model_type_name(model: &Model) -> (r: String)
    ensures
        r@ == type_name_of(model.inner, model.algorithm),
{
    match model.inner {
        ModelInner::Regressor(_) => match model.algorithm {
            ModelAlgorithm::Linear => "Linear Regressor".to_owned(),
            ModelAlgorithm::Tree => "Gradient Boosted Tree Regressor".to_owned(),
        },
        ModelInner::BinaryClassifier(_) => match model.algorithm {
            ModelAlgorithm::Linear => "Linear Binary Classifier".to_owned(),
            ModelAlgorithm::Tree => "Gradient Boosted Tree Binary Classifier".to_owned(),
        },
        ModelInner::MulticlassClassifier(_) => match model.algorithm {
            ModelAlgorithm::Linear => "Linear Multiclass Classifier".to_owned(),
            ModelAlgorithm::Tree => "Gradient Boosted Tree Multiclass Classifier".to_owned(),
        },
    }
}

/// The summary of the training run of a model. The target column counts
/// among the columns, so there is one more than statistics were kept for.
pub fn compute_summary_section_props(model: &Model) -> (r: TrainingSummarySectionProps)
    requires
        model.column_stats_count < usize::MAX,
        model.train_row_count <= usize::MAX,
        model.test_row_count <= usize::MAX,
    ensures
        r.chosen_model_type_name@ == type_name_of(model.inner, model.algorithm),
        r.column_count == model.column_stats_count + 1,
        r.model_comparison_metric_type_name@ == comparison_metric_name(model.inner),
        r.train_row_count == model.train_row_count,
        r.test_row_count == model.test_row_count,
{
    let chosen_model_type_name = model_type_name(model);
    let model_comparison_metric_type_name = match &model.inner {
        ModelInner::Regressor(metric) => regression_model_comparison_type_name(metric),
        ModelInner::BinaryClassifier(metric) => binary_classification_model_comparison_type_name(
            metric,
        ),
        ModelInner::MulticlassClassifier(metric) =>
            multiclass_classification_model_comparison_type_name(metric),
    };
    TrainingSummarySectionProps {
        chosen_model_type_name,
        column_count: model.column_stats_count + 1,
        model_comparison_metric_type_name,
        train_row_count: u64_to_usize(model.train_row_count).unwrap(),
        test_row_count: u64_to_usize(model.test_row_count).unwrap(),
    }
}

/// The names of the features that one group yields, in order.
pub open spec fn group_names(group: FeatureGroup) -> Seq<Seq<char>> {
    match group {
        FeatureGroup::Identity { source_column_name } => seq![source_column_name@],
        FeatureGroup::Normalized { source_column_name } => seq![source_column_name@],
        FeatureGroup::OneHotEncoded { source_column_name, variants } => seq![
            source_column_name@ + " = "@ + "OOV"@,
        ] + Seq::new(
            variants@.len(),
            |i: int| source_column_name@ + " = "@ + variants@[i]@,
        ),
        FeatureGroup::BagOfWords { source_column_name, ngrams } => Seq::new(
            ngrams@.len(),
            |i: int| source_column_name@ + " contains "@ + ngrams@[i]@,
        ),
        FeatureGroup::WordEmbedding { source_column_name, size } => Seq::new(
            size as nat,
            |i: int| source_column_name@ + " word embedding value "@ + decimal_digits(i as nat),
        ),
    }
}

/// The names of the features of a model: those of its groups, one group
/// after the other.
pub open spec fn feature_names_of(groups: Seq<FeatureGroup>) -> Seq<Seq<char>>
    decreases groups.len(),
{
    if groups.len() == 0 {
        Seq::empty()
    } else {
        feature_names_of(groups.drop_last()) + group_names(groups.last())
    }
}

/// The characters of each string.
pub open spec fn texts(names: Seq<String>) -> Seq<Seq<char>> {
    Seq::new(names.len(), |i: int| names[i]@)
}

/// Name and importance of each item.
pub open spec fn rows(items: Seq<FeatureImportance>) -> Seq<(Seq<char>, i64)> {
    Seq::new(items.len(), |i: int| (items[i].feature_name@, items[i].feature_importance_value))
}

/// The smaller of two lengths.
pub open spec fn shorter(a: int, b: int) -> int {
    if a < b {
        a
    } else {
        b
    }
}

/// The first `limit` features by importance. Names and importances are
/// paired as far as both reach; the most important pair comes first, and
/// pairs of equal importance stay in the order of the features.
pub open spec fn ranked(names: Seq<Seq<char>>, importances: Seq<i64>, limit: int) -> Seq<
    (Seq<char>, i64),
> {
    let count = shorter(names.len() as int, importances.len() as int);
    let values = importances.take(count);
    let order = ranking_of(values);
    Seq::new(
        shorter(count, limit) as nat,
        |k: int| (names[order[k] as int], values[order[k] as int]),
    )
}

proof fn lemma_texts_push(prior: Seq<String>, added: String)
    ensures
        texts(prior.push(added)) == texts(prior).push(added@),
{
    assert(texts(prior.push(added)) =~= texts(prior).push(added@));
}

proof fn lemma_rows_push(prior: Seq<FeatureImportance>, added: FeatureImportance)
    ensures
        rows(prior.push(added)) == rows(prior).push(
            (added.feature_name@, added.feature_importance_value),
        ),
{
    assert(rows(prior.push(added)) =~= rows(prior).push(
        (added.feature_name@, added.feature_importance_value),
    ));
}

proof fn lemma_take_one_more<T>(before: Seq<T>, wanted: Seq<T>, n: int)
    requires
        0 <= n < wanted.len(),
    ensures
        (before + wanted.take(n)).push(wanted[n]) == before + wanted.take(n + 1),
{
    assert((before + wanted.take(n)).push(wanted[n]) =~= before + wanted.take(n + 1));
}

fn labelled(name: &str, infix: &str, rest: &str) -> (r: String)
    ensures
        r@ == name@ + infix@ + rest@,
{
    let mut out: String = name.to_owned();
    out.append(infix);
    out.append(rest);
    out
}

fn push_group_names(names: &mut Vec<String>, group: &FeatureGroup)
    ensures
        texts(final(names)@) == texts(old(names)@) + group_names(*group),
{
    let ghost before = texts(names@);
    let ghost wanted = group_names(*group);
    match group {
        FeatureGroup::Identity { source_column_name } => {
            names.push(source_column_name.clone());
            assert(texts(names@) =~= before + wanted);
        },
        FeatureGroup::Normalized { source_column_name } => {
            names.push(source_column_name.clone());
            assert(texts(names@) =~= before + wanted);
        },
        FeatureGroup::OneHotEncoded { source_column_name, variants } => {
            names.push(labelled(source_column_name.as_str(), " = ", "OOV"));
            assert(texts(names@) =~= before + wanted.take(1));
            let mut i: usize = 0;
            while i < variants.len()
                invariant
                    i <= variants@.len(),
                    wanted == group_names(*group),
                    wanted.len() == variants@.len() + 1,
                    *group == (FeatureGroup::OneHotEncoded {
                        source_column_name: *source_column_name,
                        variants: *variants,
                    }),
                    texts(names@) == before + wanted.take(i + 1),
                decreases variants@.len() - i,
            {
                let ghost prior = names@;
                let name = labelled(source_column_name.as_str(), " = ", variants[i].as_str());
                assert(wanted[i + 1] == name@);
                names.push(name);
                proof {
                    lemma_texts_push(prior, name);
                    lemma_take_one_more(before, wanted, i + 1);
                }
                i = i + 1;
            }
            assert(wanted.take(i + 1) =~= wanted);
        },
        FeatureGroup::BagOfWords { source_column_name, ngrams } => {
            assert(texts(names@) =~= before + wanted.take(0));
            let mut i: usize = 0;
            while i < ngrams.len()
                invariant
                    i <= ngrams@.len(),
                    wanted == group_names(*group),
                    wanted.len() == ngrams@.len(),
                    *group == (FeatureGroup::BagOfWords {
                        source_column_name: *source_column_name,
                        ngrams: *ngrams,
                    }),
                    texts(names@) == before + wanted.take(i as int),
                decreases ngrams@.len() - i,
            {
                let ghost prior = names@;
                let name = labelled(source_column_name.as_str(), " contains ", ngrams[i].as_str());
                assert(wanted[i as int] == name@);
                names.push(name);
                proof {
                    lemma_texts_push(prior, name);
                    lemma_take_one_more(before, wanted, i as int);
                }
                i = i + 1;
            }
            assert(wanted.take(i as int) =~= wanted);
        },
        FeatureGroup::WordEmbedding { source_column_name, size } => {
            assert(texts(names@) =~= before + wanted.take(0));
            let mut i: usize = 0;
            while i < *size
                invariant
                    i <= *size,
                    wanted == group_names(*group),
                    wanted.len() == *size,
                    *group == (FeatureGroup::WordEmbedding {
                        source_column_name: *source_column_name,
                        size: *size,
                    }),
                    texts(names@) == before + wanted.take(i as int),
                decreases *size - i,
            {
                let number = decimal_text(i as u64);
                let ghost prior = names@;
                let name = labelled(
                    source_column_name.as_str(),
                    " word embedding value ",
                    number.as_str(),
                );
                assert(wanted[i as int] == name@);
                names.push(name);
                proof {
                    lemma_texts_push(prior, name);
                    lemma_take_one_more(before, wanted, i as int);
                }
                i = i + 1;
            }
            assert(wanted.take(i as int) =~= wanted);
        },
    }
}

/// The names of the features of a model, one group after the other.
///
/// An identity or normalized group gives the name of its column. A one-hot
/// group gives "column = OOV" and then "column = variant" for each variant.
/// A bag of words gives "column contains n-gram" for each n-gram. A word
/// embedding gives "column word embedding value i" for each dimension `i`,
/// counted from 0.
pub fn compute_feature_names(feature_groups: &Vec<FeatureGroup>) -> (names: Vec<String>)
    ensures
        texts(names@) == feature_names_of(feature_groups@),
{
    let mut names: Vec<String> = Vec::new();
    let mut i: usize = 0;
    assert(feature_groups@.take(0) =~= Seq::<FeatureGroup>::empty());
    assert(texts(names@) =~= feature_names_of(feature_groups@.take(0)));
    while i < feature_groups.len()
        invariant
            i <= feature_groups@.len(),
            texts(names@) == feature_names_of(feature_groups@.take(i as int)),
        decreases feature_groups@.len() - i,
    {
        push_group_names(&mut names, &feature_groups[i]);
        assert(feature_groups@.take(i + 1).drop_last() =~= feature_groups@.take(i as int));
        i = i + 1;
    }
    assert(feature_groups@.take(i as int) =~= feature_groups@);
    names
}

fn leading(
    names: &Vec<String>,
    values: &Vec<i64>,
    order: &Vec<usize>,
    limit: usize,
) -> (items: Vec<FeatureImportance>)
    requires
        values@.len() <= names@.len(),
        order@.len() == values@.len(),
        forall|i: int| 0 <= i < order@.len() ==> 0 <= #[trigger] order@[i] < values@.len(),
    ensures
        rows(items@) == Seq::new(
            shorter(values@.len() as int, limit as int) as nat,
            |k: int| (names@[order@[k] as int]@, values@[order@[k] as int]),
        ),
{
    let shown = if values.len() < limit {
        values.len()
    } else {
        limit
    };
    let ghost wanted = Seq::new(
        shown as nat,
        |k: int| (names@[order@[k] as int]@, values@[order@[k] as int]),
    );
    let mut items: Vec<FeatureImportance> = Vec::new();
    let mut k: usize = 0;
    assert(rows(items@) =~= wanted.take(0));
    while k < shown
        invariant
            k <= shown <= values@.len() <= names@.len(),
            order@.len() == values@.len(),
            forall|i: int| 0 <= i < order@.len() ==> 0 <= #[trigger] order@[i] < values@.len(),
            wanted == Seq::new(
                shown as nat,
                |k: int| (names@[order@[k] as int]@, values@[order@[k] as int]),
            ),
            rows(items@) == wanted.take(k as int),
        decreases shown - k,
    {
        let at = order[k];
        let ghost prior = items@;
        let item = FeatureImportance {
            feature_name: names[at].clone(),
            feature_importance_value: values[at],
        };
        assert(wanted[k as int] == (item.feature_name@, item.feature_importance_value));
        items.push(item);
        proof {
            lemma_rows_push(prior, item);
            lemma_take_one_more(Seq::empty(), wanted, k as int);
            assert(Seq::<(Seq<char>, i64)>::empty() + wanted.take(k as int) =~= wanted.take(
                k as int,
            ));
            assert(Seq::<(Seq<char>, i64)>::empty() + wanted.take(k + 1) =~= wanted.take(k + 1));
        }
        k = k + 1;
    }
    assert(wanted.take(k as int) =~= wanted);
    items
}

/// The feature importances that the training page shows.
///
/// Names and importances are paired as far as both reach, and ranked by
/// importance, the highest first; features of equal importance keep their
/// order. The table shows the first
/// `TRAINING_IMPORTANCES_MAX_FEATURE_IMPORTANCES_TO_SHOW_IN_TABLE` of them,
/// the chart the first
/// `TRAINING_IMPORTANCES_MAX_FEATURE_IMPORTANCES_TO_SHOW_IN_CHART`.
pub fn compute_feature_importances_section_props(model: &Model) -> (r:
    FeatureImportancesSectionProps)
    ensures
        r.n_columns == model.column_stats_count,
        r.n_features == shorter(
            feature_names_of(model.feature_groups@).len() as int,
            model.feature_importances@.len() as int,
        ),
        rows(r.feature_importances_table_rows@) == ranked(
            feature_names_of(model.feature_groups@),
            model.feature_importances@,
            TRAINING_IMPORTANCES_MAX_FEATURE_IMPORTANCES_TO_SHOW_IN_TABLE as int,
        ),
        rows(r.feature_importances_chart_values@) == ranked(
            feature_names_of(model.feature_groups@),
            model.feature_importances@,
            TRAINING_IMPORTANCES_MAX_FEATURE_IMPORTANCES_TO_SHOW_IN_CHART as int,
        ),
{
    let names = compute_feature_names(&model.feature_groups);
    let count = if names.len() < model.feature_importances.len() {
        names.len()
    } else {
        model.feature_importances.len()
    };
    let mut values: Vec<i64> = Vec::new();
    let mut i: usize = 0;
    assert(values@ =~= model.feature_importances@.take(0));
    while i < count
        invariant
            i <= count <= model.feature_importances@.len(),
            values@ == model.feature_importances@.take(i as int),
        decreases count - i,
    {
        values.push(model.feature_importances[i]);
        assert(values@ =~= model.feature_importances@.take(i + 1));
        i = i + 1;
    }
    let order = rank_descending(&values);
    let ghost spelled = feature_names_of(model.feature_groups@);
    assert(spelled.len() == names@.len());
    let feature_importances_table_rows = leading(
        &names,
        &values,
        &order,
        TRAINING_IMPORTANCES_MAX_FEATURE_IMPORTANCES_TO_SHOW_IN_TABLE,
    );
    let feature_importances_chart_values = leading(
        &names,
        &values,
        &order,
        TRAINING_IMPORTANCES_MAX_FEATURE_IMPORTANCES_TO_SHOW_IN_CHART,
    );
    proof {
        assert forall|k: int| 0 <= k < names@.len() implies names@[k]@ == spelled[k] by {
            assert(texts(names@)[k] == names@[k]@);
        }
        assert(rows(feature_importances_table_rows@) =~= ranked(
            spelled,
            model.feature_importances@,
            TRAINING_IMPORTANCES_MAX_FEATURE_IMPORTANCES_TO_SHOW_IN_TABLE as int,
        ));
        assert(rows(feature_importances_chart_values@) =~= ranked(
            spelled,
            model.feature_importances@,
            TRAINING_IMPORTANCES_MAX_FEATURE_IMPORTANCES_TO_SHOW_IN_CHART as int,
        ));
    }
    FeatureImportancesSectionProps {
        n_columns: model.column_stats_count,
        n_features: count,
        feature_importances_chart_values,
        feature_importances_table_rows,
    }
}

} // verus!
