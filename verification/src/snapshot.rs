//! The snapshot model: one immutable, validated record of a user's tracked
//! axis values at a point in time. Snapshots are only constructed through
//! the validating builder; an invalid snapshot is never observable.

use vstd::prelude::*;
use vstd::string::StringExecFns;
use crate::axes::{is_canonical_axis, is_canonical_axis_name};
use crate::{check_value_in_range, value_in_range};

verus! {

/// Provenance of a snapshot's values.
#[derive(Clone, Copy, Debug, PartialEq, Eq, Structural)]
pub enum Source {
    /// The user explicitly provided this state.
    SelfReport,
    /// The state was inferred from behavior.
    Inferred,
    /// A combination of self-report and inference.
    Mixed,
}

impl Source {
    /// The wire label of this provenance tag.
    pub fn label(&self) -> (r: &'static str)
        ensures
            *self == Source::SelfReport ==> r@ == "self_report"@,
            *self == Source::Inferred ==> r@ == "inferred"@,
            *self == Source::Mixed ==> r@ == "mixed"@,
    {
        match self {
            Source::SelfReport => "self_report",
            Source::Inferred => "inferred",
            Source::Mixed => "mixed",
        }
    }
}

/// One named axis value, scaled to thousandths.
#[derive(Debug)]
pub struct AxisValue {
    /// The axis name; must be canonical to pass validation.
    pub name: String,
    /// The value in thousandths; in range when at most 1000.
    pub value_milli: u32,
}

/// The mathematical image of one axis value.
#[verifier::ext_equal]
pub ghost struct AxisView {
    /// The axis name's characters.
    pub name: Seq<char>,
    /// The value in thousandths.
    pub value_milli: u32,
}

impl View for AxisValue {
    type V = AxisView;

    open spec fn view(&self) -> AxisView {
        AxisView { name: self.name@, value_milli: self.value_milli }
    }
}

impl Clone for AxisValue {
    fn clone(&self) -> (r: Self)
        ensures
            r == *self,
    {
        AxisValue { name: self.name.clone(), value_milli: self.value_milli }
    }
}

/// One user's validated behavioral state at one point in time.
#[derive(Debug)]
pub struct StateSnapshot {
    /// Opaque identifier of the user; non-empty after validation.
    pub user_id: String,
    /// Provenance of the values.
    pub source: Source,
    /// Confidence in the values, in thousandths.
    pub confidence_milli: u32,
    /// The tracked axis values; canonical names, unique, in range after
    /// validation.
    pub axes: Vec<AxisValue>,
    /// Timestamp of construction, in milliseconds since the Unix epoch.
    pub updated_at_unix_ms: i64,
}

/// The mathematical image of a snapshot.
#[verifier::ext_equal]
pub ghost struct SnapshotView {
    /// The user id's characters.
    pub user_id: Seq<char>,
    /// Provenance of the values.
    pub source: Source,
    /// Confidence in thousandths.
    pub confidence_milli: u32,
    /// The axis values in builder order.
    pub axes: Seq<AxisView>,
    /// Construction timestamp in Unix milliseconds.
    pub updated_at_unix_ms: i64,
}

impl View for StateSnapshot {
    type V = SnapshotView;

    open spec fn view(&self) -> SnapshotView {
        SnapshotView {
            user_id: self.user_id@,
            source: self.source,
            confidence_milli: self.confidence_milli,
            axes: self.axes@.map_values(|a: AxisValue| a@),
            updated_at_unix_ms: self.updated_at_unix_ms,
        }
    }
}

impl Clone for StateSnapshot {
    fn clone(&self) -> (r: Self)
        ensures
            r@ == self@,
    {
        let mut axes: Vec<AxisValue> = Vec::new();
        let mut i: usize = 0;
        while i < self.axes.len()
            invariant
                i <= self.axes@.len(),
                axes@ =~= self.axes@.subrange(0, i as int),
            decreases self.axes@.len() - i,
        {
            axes.push(self.axes[i].clone());
            i = i + 1;
        }
        proof {
            assert(axes@ =~= self.axes@);
        }
        let r = StateSnapshot {
            user_id: self.user_id.clone(),
            source: self.source,
            confidence_milli: self.confidence_milli,
            axes,
            updated_at_unix_ms: self.updated_at_unix_ms,
        };
        proof {
            assert(r@.axes =~= self@.axes);
        }
        r
    }
}

/// True when no two axes share a name.
pub open spec fn axes_unique(axes: Seq<AxisView>) -> bool {
    forall|i: int, j: int| 0 <= i < j < axes.len() ==> axes[i].name != axes[j].name
}

/// True when no axis before position `k` shares the name of the axis at
/// `k`.
pub open spec fn no_earlier_dup(axes: Seq<AxisView>, k: int) -> bool {
    forall|j: int| 0 <= j < k ==> axes[j].name != axes[k].name
}

/// True when the axis at position `k` passes every per-axis check.
pub open spec fn axis_clean(axes: Seq<AxisView>, k: int) -> bool {
    &&& is_canonical_axis_name(axes[k].name)
    &&& value_in_range(axes[k].value_milli)
    &&& no_earlier_dup(axes, k)
}

/// A snapshot is valid when its user id is non-empty, every axis name is
/// canonical, no name repeats, and every value and the confidence lie in
/// the declared range.
pub open spec fn valid_snapshot(s: SnapshotView) -> bool {
    &&& s.user_id.len() > 0
    &&& forall|i: int|
        0 <= i < s.axes.len() ==> is_canonical_axis_name(#[trigger] s.axes[i].name)
            && value_in_range(s.axes[i].value_milli)
    &&& axes_unique(s.axes)
    &&& value_in_range(s.confidence_milli)
}

/// The first defect that validation finds in a snapshot.
pub ghost enum SnapshotIssue {
    /// The user id has no characters.
    UserIdEmpty,
    /// The axis at this index has a name the registry does not recognize.
    AxisUnknown { idx: int },
    /// The axis at this index has a value outside its declared range.
    AxisOutOfRange { idx: int },
    /// The axis at this index repeats an earlier axis name.
    AxisDuplicate { idx: int },
    /// The confidence lies outside its declared range.
    ConfidenceOutOfRange,
}

/// The first defect among the axes at positions `i` and later.
pub open spec fn first_axis_issue_from(axes: Seq<AxisView>, i: int) -> Option<SnapshotIssue>
    decreases axes.len() - i,
{
    if i < 0 || i >= axes.len() {
        None
    } else if !is_canonical_axis_name(axes[i].name) {
        Some(SnapshotIssue::AxisUnknown { idx: i })
    } else if !value_in_range(axes[i].value_milli) {
        Some(SnapshotIssue::AxisOutOfRange { idx: i })
    } else if !no_earlier_dup(axes, i) {
        Some(SnapshotIssue::AxisDuplicate { idx: i })
    } else {
        first_axis_issue_from(axes, i + 1)
    }
}

/// The first defect that validation finds, in the order it checks: the
/// user id, then each axis front to back, then the confidence.
pub open spec fn first_issue(s: SnapshotView) -> Option<SnapshotIssue> {
    if s.user_id.len() == 0 {
        Some(SnapshotIssue::UserIdEmpty)
    } else if first_axis_issue_from(s.axes, 0) is Some {
        first_axis_issue_from(s.axes, 0)
    } else if !value_in_range(s.confidence_milli) {
        Some(SnapshotIssue::ConfidenceOutOfRange)
    } else {
        None
    }
}

/// The axes at positions `i` and later are free of defects exactly when
/// the scan from `i` finds none.
pub proof fn lemma_axis_issue_none(axes: Seq<AxisView>, i: int)
    requires
        0 <= i <= axes.len(),
    ensures
        first_axis_issue_from(axes, i) is None <==> forall|k: int|
            i <= k < axes.len() ==> #[trigger] axis_clean(axes, k),
    decreases axes.len() - i,
{
    if i < axes.len() {
        lemma_axis_issue_none(axes, i + 1);
        if first_axis_issue_from(axes, i) is None {
            assert(axis_clean(axes, i));
            assert(first_axis_issue_from(axes, i + 1) is None);
            assert forall|k: int| i <= k < axes.len() implies #[trigger] axis_clean(
                axes,
                k,
            ) by {
                if k > i {
                    assert(axis_clean(axes, k));
                }
            }
        } else {
            if forall|k: int| i <= k < axes.len() ==> #[trigger] axis_clean(axes, k) {
                assert(axis_clean(axes, i));
                assert forall|k: int| i + 1 <= k < axes.len() implies #[trigger] axis_clean(
                    axes,
                    k,
                ) by {
                    assert(axis_clean(axes, k));
                }
                assert(first_axis_issue_from(axes, i + 1) is None);
                assert(first_axis_issue_from(axes, i) is None);
            }
        }
    }
}

/// A snapshot is valid exactly when validation finds no defect in it.
pub proof fn lemma_valid_iff_no_issue(s: SnapshotView)
    ensures
        valid_snapshot(s) <==> first_issue(s) is None,
{
    lemma_axis_issue_none(s.axes, 0);
    if forall|k: int| 0 <= k < s.axes.len() ==> #[trigger] axis_clean(s.axes, k) {
        assert forall|i: int|
            0 <= i < s.axes.len() implies is_canonical_axis_name(#[trigger] s.axes[i].name)
            && value_in_range(s.axes[i].value_milli) by {
            assert(axis_clean(s.axes, i));
        }
        assert forall|i: int, j: int| 0 <= i < j < s.axes.len() implies s.axes[i].name
            != s.axes[j].name by {
            assert(axis_clean(s.axes, j));
        }
    }
    if valid_snapshot(s) {
        assert forall|k: int| 0 <= k < s.axes.len() implies #[trigger] axis_clean(
            s.axes,
            k,
        ) by {
            assert(is_canonical_axis_name(s.axes[k].name));
            assert forall|j: int| 0 <= j < k implies s.axes[j].name != s.axes[k].name by {
                assert(axes_unique(s.axes));
            }
        }
    }
}

/// Why a snapshot failed validation.
#[derive(Debug)]
pub enum ValidationError {
    /// The user id has no characters.
    EmptyUserId,
    /// An axis name the registry does not recognize.
    UnknownAxis {
        /// The unrecognized name.
        name: String,
    },
    /// An axis value outside its declared range.
    AxisValueOutOfRange {
        /// The axis whose value is out of range.
        name: String,
        /// The offending value in thousandths.
        value_milli: u32,
    },
    /// A confidence outside its declared range.
    ConfidenceOutOfRange {
        /// The offending value in thousandths.
        value_milli: u32,
    },
    /// An axis name that appears twice.
    DuplicateAxis {
        /// The repeated name.
        name: String,
    },
}

/// True when the error reports exactly the first defect that validation
/// finds in the snapshot, payload included.
pub open spec fn error_reflects_issue(e: ValidationError, s: SnapshotView) -> bool {
    match first_issue(s) {
        None => false,
        Some(issue) => match issue {
            SnapshotIssue::UserIdEmpty => e is EmptyUserId,
            SnapshotIssue::AxisUnknown { idx } => e matches ValidationError::UnknownAxis { name }
                && name@ == s.axes[idx].name,
            SnapshotIssue::AxisOutOfRange { idx } => e matches ValidationError::AxisValueOutOfRange {
                name,
                value_milli,
            } && name@ == s.axes[idx].name && value_milli == s.axes[idx].value_milli,
            SnapshotIssue::AxisDuplicate { idx } => e matches ValidationError::DuplicateAxis {
                name,
            } && name@ == s.axes[idx].name,
            SnapshotIssue::ConfidenceOutOfRange => e matches ValidationError::ConfidenceOutOfRange {
                value_milli,
            } && value_milli == s.confidence_milli,
        },
    }
}

impl StateSnapshot {
    /// Checks this snapshot against the validity rules and reports the
    /// first defect found, in scan order.
    pub fn validate(&self) -> (r: Result<(), ValidationError>)
        ensures
            r is Ok <==> valid_snapshot(self@),
            r matches Err(e) ==> error_reflects_issue(e, self@),
    {
        proof {
            lemma_valid_iff_no_issue(self@);
        }
        if self.user_id.as_str().is_empty() {
            return Err(ValidationError::EmptyUserId);
        }
        let ghost axes_view = self@.axes;
        let mut i: usize = 0;
        while i < self.axes.len()
            invariant
                i <= self.axes@.len(),
                self@.user_id.len() > 0,
                axes_view == self@.axes,
                axes_view == self.axes@.map_values(|a: AxisValue| a@),
                first_axis_issue_from(axes_view, 0) == first_axis_issue_from(
                    axes_view,
                    i as int,
                ),
            decreases self.axes@.len() - i,
        {
            proof {
                lemma_valid_iff_no_issue(self@);
            }
            let name = &self.axes[i].name;
            let value_milli = self.axes[i].value_milli;
            assert(axes_view[i as int] == self.axes@[i as int]@);
            if !is_canonical_axis(name.as_str()) {
                proof {
                    assert(first_axis_issue_from(axes_view, i as int) == Some(
                        SnapshotIssue::AxisUnknown { idx: i as int },
                    ));
                }
                return Err(ValidationError::UnknownAxis { name: name.clone() });
            }
            if !check_value_in_range(value_milli) {
                proof {
                    assert(first_axis_issue_from(axes_view, i as int) == Some(
                        SnapshotIssue::AxisOutOfRange { idx: i as int },
                    ));
                }
                return Err(ValidationError::AxisValueOutOfRange { name: name.clone(), value_milli });
            }
            let mut j: usize = 0;
            while j < i
                invariant
                    j <= i < self.axes@.len(),
                    name == &self.axes@[i as int].name,
                    self@.user_id.len() > 0,
                    axes_view == self@.axes,
                    axes_view == self.axes@.map_values(|a: AxisValue| a@),
                    first_axis_issue_from(axes_view, 0) == first_axis_issue_from(
                        axes_view,
                        i as int,
                    ),
                    is_canonical_axis_name(axes_view[i as int].name),
                    value_in_range(axes_view[i as int].value_milli),
                    forall|k: int| 0 <= k < j ==> axes_view[k].name != axes_view[i as int].name,
                decreases i - j,
            {
                proof {
                    lemma_valid_iff_no_issue(self@);
                }
                assert(axes_view[j as int] == self.axes@[j as int]@);
                assert(axes_view[i as int] == self.axes@[i as int]@);
                if crate::text::str_eq(self.axes[j].name.as_str(), self.axes[i].name.as_str()) {
                    proof {
                        assert(axes_view[j as int].name == axes_view[i as int].name);
                        assert(!no_earlier_dup(axes_view, i as int));
                        assert(first_axis_issue_from(axes_view, i as int) == Some(
                            SnapshotIssue::AxisDuplicate { idx: i as int },
                        ));
                    }
                    return Err(ValidationError::DuplicateAxis { name: name.clone() });
                }
                j = j + 1;
            }
            proof {
                assert(no_earlier_dup(axes_view, i as int));
            }
            i = i + 1;
        }
        if !check_value_in_range(self.confidence_milli) {
            return Err(ValidationError::ConfidenceOutOfRange {
                value_milli: self.confidence_milli,
            });
        }
        Ok(())
    }

    /// Starts a builder with the defaults: empty user id, self-reported
    /// provenance, full confidence, no axes.
    pub fn builder() -> (r: StateSnapshotBuilder)
        ensures
            r.user_id@ == Seq::<char>::empty(),
            r.source == Source::SelfReport,
            r.confidence_milli == 1000u32,
            r.axes@.len() == 0,
    {
        StateSnapshotBuilder {
            user_id: String::new(),
            source: Source::SelfReport,
            confidence_milli: 1000,
            axes: Vec::new(),
        }
    }
}

/// The position of the first axis named `name`, if any.
pub open spec fn axis_index_of(axes: Seq<AxisView>, name: Seq<char>, i: int) -> Option<int>
    decreases axes.len() - i,
{
    if i < 0 || i >= axes.len() {
        None
    } else if axes[i].name == name {
        Some(i)
    } else {
        axis_index_of(axes, name, i + 1)
    }
}

/// A found position names a real axis with the sought name.
pub proof fn lemma_axis_index_of_found(axes: Seq<AxisView>, name: Seq<char>, i: int)
    requires
        0 <= i,
    ensures
        match axis_index_of(axes, name, i) {
            Some(k) => i <= k < axes.len() && axes[k].name == name,
            None => true,
        },
    decreases axes.len() - i,
{
    if i < axes.len() && axes[i].name != name {
        lemma_axis_index_of_found(axes, name, i + 1);
    }
}

/// Setting an axis replaces the first axis of the same name, or appends a
/// new one.
pub open spec fn upsert_axis(axes: Seq<AxisView>, a: AxisView) -> Seq<AxisView> {
    match axis_index_of(axes, a.name, 0) {
        Some(i) => axes.update(i, a),
        None => axes.push(a),
    }
}

/// The position of the first axis in `axes` whose name reads as `name`.
fn find_axis_index(axes: &Vec<AxisValue>, name: &str) -> (r: Option<usize>)
    ensures
        match r {
            Some(i) => i < axes@.len() && axis_index_of(
                axes@.map_values(|a: AxisValue| a@),
                name@,
                0,
            ) == Some(i as int),
            None => axis_index_of(axes@.map_values(|a: AxisValue| a@), name@, 0) is None,
        },
{
    let ghost axes_view = axes@.map_values(|a: AxisValue| a@);
    let mut i: usize = 0;
    while i < axes.len()
        invariant
            i <= axes@.len(),
            axes_view == axes@.map_values(|a: AxisValue| a@),
            axis_index_of(axes_view, name@, 0) == axis_index_of(axes_view, name@, i as int),
        decreases axes@.len() - i,
    {
        assert(axes_view[i as int] == axes@[i as int]@);
        if crate::text::str_eq(axes[i].name.as_str(), name) {
            proof {
                assert(axis_index_of(axes_view, name@, i as int) == Some(i as int));
            }
            return Some(i);
        }
        i = i + 1;
    }
    None
}

/// Validating builder for [`StateSnapshot`]; the only way to construct
/// one.
pub struct StateSnapshotBuilder {
    /// The user id to record.
    pub user_id: String,
    /// The provenance to record.
    pub source: Source,
    /// The confidence to record, in thousandths.
    pub confidence_milli: u32,
    /// The axis values gathered so far.
    pub axes: Vec<AxisValue>,
}

impl StateSnapshotBuilder {
    /// The snapshot this builder would produce at time `t`.
    pub open spec fn spec_view_at(self, t: i64) -> SnapshotView {
        SnapshotView {
            user_id: self.user_id@,
            source: self.source,
            confidence_milli: self.confidence_milli,
            axes: self.axes@.map_values(|a: AxisValue| a@),
            updated_at_unix_ms: t,
        }
    }

    /// Sets the user id.
    pub fn user_id(self, id: &str) -> (r: Self)
        ensures
            r.user_id@ == id@,
            r.source == self.source,
            r.confidence_milli == self.confidence_milli,
            r.axes@ == self.axes@,
    {
        StateSnapshotBuilder {
            user_id: String::from_str(id),
            source: self.source,
            confidence_milli: self.confidence_milli,
            axes: self.axes,
        }
    }

    /// Sets the provenance.
    pub fn source(self, source: Source) -> (r: Self)
        ensures
            r.user_id@ == self.user_id@,
            r.source == source,
            r.confidence_milli == self.confidence_milli,
            r.axes@ == self.axes@,
    {
        StateSnapshotBuilder {
            user_id: self.user_id,
            source,
            confidence_milli: self.confidence_milli,
            axes: self.axes,
        }
    }

    /// Sets the confidence, in thousandths.
    pub fn confidence(self, value_milli: u32) -> (r: Self)
        ensures
            r.user_id@ == self.user_id@,
            r.source == self.source,
            r.confidence_milli == value_milli,
            r.axes@ == self.axes@,
    {
        StateSnapshotBuilder {
            user_id: self.user_id,
            source: self.source,
            confidence_milli: value_milli,
            axes: self.axes,
        }
    }

    /// Sets one axis value, replacing an earlier value for the same name.
    pub fn axis(self, name: &str, value_milli: u32) -> (r: Self)
        ensures
            r.user_id@ == self.user_id@,
            r.source == self.source,
            r.confidence_milli == self.confidence_milli,
            r.axes@.map_values(|a: AxisValue| a@) == upsert_axis(
                self.axes@.map_values(|a: AxisValue| a@),
                AxisView { name: name@, value_milli },
            ),
    {
        let ghost axes_view = self.axes@.map_values(|a: AxisValue| a@);
        let ghost target = AxisView { name: name@, value_milli };
        let mut axes = self.axes;
        match find_axis_index(&axes, name) {
            Some(i) => {
                proof {
                    lemma_axis_index_of_found(axes_view, name@, 0);
                }
                let mut updated: Vec<AxisValue> = Vec::new();
                let mut k: usize = 0;
                while k < axes.len()
                    invariant
                        k <= axes@.len(),
                        i < axes@.len(),
                        axes_view == axes@.map_values(|a: AxisValue| a@),
                        axes_view[i as int].name == name@,
                        target == (AxisView { name: name@, value_milli }),
                        updated@.len() == k,
                        forall|m: int|
                            0 <= m < k ==> #[trigger] updated@[m]@ == axes_view.update(
                                i as int,
                                target,
                            )[m],
                    decreases axes@.len() - k,
                {
                    assert(axes_view[k as int] == axes@[k as int]@);
                    if k == i {
                        let value = AxisValue { name: axes[k].name.clone(), value_milli };
                        assert(value@ == target);
                        updated.push(value);
                    } else {
                        updated.push(axes[k].clone());
                    }
                    k = k + 1;
                }
                proof {
                    assert forall|m: int| #![trigger updated@[m]]
                        0 <= m < updated@.len() implies updated@.map_values(
                        |a: AxisValue| a@,
                    )[m] == axes_view.update(i as int, target)[m] by {
                        assert(updated@[m]@ == axes_view.update(i as int, target)[m]);
                    }
                    assert(updated@.map_values(|a: AxisValue| a@) =~= axes_view.update(
                        i as int,
                        target,
                    ));
                }
                axes = updated;
            },
            None => {
                axes.push(AxisValue { name: String::from_str(name), value_milli });
                proof {
                    assert(axes@.map_values(|a: AxisValue| a@) =~= axes_view.push(target));
                }
            },
        }
        StateSnapshotBuilder {
            user_id: self.user_id,
            source: self.source,
            confidence_milli: self.confidence_milli,
            axes,
        }
    }

    /// Builds the snapshot with the given construction timestamp, after
    /// validating it.
    pub fn build_at(self, now_unix_ms: i64) -> (r: Result<StateSnapshot, ValidationError>)
        ensures
            r is Ok <==> valid_snapshot(self.spec_view_at(now_unix_ms)),
            r is Ok ==> r->Ok_0@ == self.spec_view_at(now_unix_ms),
            r matches Err(e) ==> error_reflects_issue(e, self.spec_view_at(now_unix_ms)),
    {
        let snapshot = StateSnapshot {
            user_id: self.user_id,
            source: self.source,
            confidence_milli: self.confidence_milli,
            axes: self.axes,
            updated_at_unix_ms: now_unix_ms,
        };
        match snapshot.validate() {
            Ok(()) => Ok(snapshot),
            Err(e) => Err(e),
        }
    }

    /// Builds the snapshot, stamping it with the wall clock, after
    /// validating it. Validity does not depend on the timestamp.
    pub fn build(self) -> (r: Result<StateSnapshot, ValidationError>)
        ensures
            r is Ok <==> valid_snapshot(self.spec_view_at(0)),
            r is Ok ==> r->Ok_0@ == self.spec_view_at(r->Ok_0@.updated_at_unix_ms),
    {
        let now: i64 = now_unix_ms();
        let ghost me = self;
        let r = self.build_at(now);
        proof {
            assert(valid_snapshot(me.spec_view_at(now)) <==> valid_snapshot(
                me.spec_view_at(0),
            ));
        }
        r
    }
}

/// Relies on std::time::SystemTime::now and its distance from UNIX_EPOCH:
/// the wall-clock time in milliseconds since the Unix epoch. Nothing is
/// promised of the value.
#[verifier::external_body]
pub(crate) fn now_unix_ms() -> i64 {
    match std::time::SystemTime::now().duration_since(std::time::UNIX_EPOCH) {
        Ok(d) => d.as_millis() as i64,
        Err(_) => 0,
    }
}

} // verus!
