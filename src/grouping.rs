//! Grouping students by a derived key: one group per distinct key, each with
//! its members in the order they came and their count.

use crate::course::model::{course_has_id, find_course, Course};
use crate::error::ServiceError;
use crate::lookup::{first_match, lemma_first_match_at, lemma_first_match_none};
use crate::student::model::{student_views, Student, StudentView};
use vstd::prelude::*;

verus! {

broadcast use vstd::string::to_string_from_display_ensures_for_str;

/// A student paired with the key of a group it belongs to, as plain values.
pub type KeyedView = (Seq<char>, StudentView);

/// The dimension students are grouped by.
#[allow(non_camel_case_types)]
#[derive(Debug, Clone, Copy, PartialEq, Eq, Structural)]
pub enum GroupBy {
    /// The name of the student's course.
    COURSE,
    /// The student's language, verbatim.
    LANGUAGE,
    /// Each of the student's operating systems: one membership per system.
    OS,
}

impl GroupBy {
    /// The dimension named by a query value: "course", "language" or "os".
    pub fn from_query(entity: &String) -> (r: Option<GroupBy>)
        ensures
            r == if entity@ == "course"@ {
                Some(GroupBy::COURSE)
            } else if entity@ == "language"@ {
                Some(GroupBy::LANGUAGE)
            } else if entity@ == "os"@ {
                Some(GroupBy::OS)
            } else {
                None::<GroupBy>
            },
    {
        if *entity == "course".to_string() {
            Some(GroupBy::COURSE)
        } else if *entity == "language".to_string() {
            Some(GroupBy::LANGUAGE)
        } else if *entity == "os".to_string() {
            Some(GroupBy::OS)
        } else {
            None
        }
    }
}

/// One group: its key, its members in order, and how many they are.
#[derive(Debug)]
pub struct Group {
    pub key: String,
    pub students: Vec<Student>,
    pub total: usize,
}

/// The views of keyed rows.
pub open spec fn rows_view(rows: Seq<(String, Student)>) -> Seq<KeyedView> {
    rows.map_values(|r: (String, Student)| (r.0@, r.1@))
}

/// The students of the rows whose key is `key`, in the order of the rows.
pub open spec fn members_with_key(rows: Seq<KeyedView>, key: Seq<char>) -> Seq<StudentView>
    decreases rows.len(),
{
    if rows.len() == 0 {
        Seq::empty()
    } else {
        let earlier = members_with_key(rows.drop_last(), key);
        if rows.last().0 == key {
            earlier.push(rows.last().1)
        } else {
            earlier
        }
    }
}

/// The members of a group, as views.
pub open spec fn group_members(g: Group) -> Seq<StudentView> {
    g.students@.map_values(|s: Student| s@)
}

/// The sum of the counts of the groups.
pub open spec fn sum_totals(groups: Seq<Group>) -> int
    decreases groups.len(),
{
    if groups.len() == 0 {
        0
    } else {
        sum_totals(groups.drop_last()) + groups.last().total
    }
}

/// The number of memberships: the sum of the sizes of the groups.
pub open spec fn sum_members(groups: Seq<Group>) -> int
    decreases groups.len(),
{
    if groups.len() == 0 {
        0
    } else {
        sum_members(groups.drop_last()) + groups.last().students@.len()
    }
}

/// Some group has key `key`.
pub open spec fn has_group(groups: Seq<Group>, key: Seq<char>) -> bool {
    exists|g: int| 0 <= g < groups.len() && (#[trigger] groups[g]).key@ == key
}

/// Some row has key `key`.
pub open spec fn has_row(rows: Seq<KeyedView>, key: Seq<char>) -> bool {
    exists|r: int| 0 <= r < rows.len() && (#[trigger] rows[r]).0 == key
}

/// `groups` groups `rows` by key: the keys are distinct and are exactly the
/// keys of the rows; each group holds the students of its key in row order,
/// and its count is their number.
#[verifier::opaque]
pub open spec fn is_grouping_of(groups: Seq<Group>, rows: Seq<KeyedView>) -> bool {
    &&& forall|i: int, j: int|
        0 <= i < j < groups.len() ==> (#[trigger] groups[i]).key@ != (#[trigger] groups[j]).key@
    &&& forall|r: int| 0 <= r < rows.len() ==> has_group(groups, (#[trigger] rows[r]).0)
    &&& forall|g: int| 0 <= g < groups.len() ==> has_row(rows, (#[trigger] groups[g]).key@)
    &&& forall|g: int|
        0 <= g < groups.len() ==> group_members(#[trigger] groups[g]) == members_with_key(
            rows,
            groups[g].key@,
        )
    &&& forall|g: int|
        0 <= g < groups.len() ==> (#[trigger] groups[g]).total == groups[g].students@.len()
}

proof fn lemma_members_absent(rows: Seq<KeyedView>, key: Seq<char>)
    requires
        forall|r: int| 0 <= r < rows.len() ==> (#[trigger] rows[r]).0 != key,
    ensures
        members_with_key(rows, key) == Seq::<StudentView>::empty(),
    decreases rows.len(),
{
    if rows.len() > 0 {
        let prefix = rows.drop_last();
        assert forall|r: int| 0 <= r < prefix.len() implies (#[trigger] prefix[r]).0 != key by {
            assert(prefix[r] == rows[r]);
        }
        lemma_members_absent(prefix, key);
        assert(rows.last() == rows[rows.len() - 1]);
    }
}

proof fn lemma_sum_totals_update(groups: Seq<Group>, j: int, g: Group)
    requires
        0 <= j < groups.len(),
    ensures
        sum_totals(groups.update(j, g)) == sum_totals(groups) - groups[j].total + g.total,
    decreases groups.len(),
{
    let updated = groups.update(j, g);
    if j == groups.len() - 1 {
        assert(updated.drop_last() =~= groups.drop_last());
    } else {
        assert(updated.drop_last() =~= groups.drop_last().update(j, g));
        lemma_sum_totals_update(groups.drop_last(), j, g);
    }
}

proof fn lemma_members_push(rows: Seq<KeyedView>, row: KeyedView, key: Seq<char>)
    ensures
        members_with_key(rows.push(row), key) == if row.0 == key {
            members_with_key(rows, key).push(row.1)
        } else {
            members_with_key(rows, key)
        },
{
    assert(rows.push(row).drop_last() =~= rows);
}

/// Adding a row whose key already has a group extends that group.
proof fn lemma_grouping_extend(
    groups: Seq<Group>,
    rows: Seq<KeyedView>,
    j: int,
    g: Group,
    row: KeyedView,
)
    requires
        is_grouping_of(groups, rows),
        0 <= j < groups.len(),
        groups[j].key@ == row.0,
        g.key@ == row.0,
        group_members(g) == group_members(groups[j]).push(row.1),
        g.total == g.students@.len(),
    ensures
        is_grouping_of(groups.update(j, g), rows.push(row)),
{
    reveal(is_grouping_of);
    let after = rows.push(row);
    let ng = groups.update(j, g);
    assert forall|k: int| 0 <= k < ng.len() implies group_members(#[trigger] ng[k])
        == members_with_key(after, ng[k].key@) by {
        lemma_members_push(rows, row, ng[k].key@);
        if k != j {
            assert(ng[k] == groups[k]);
        }
    }
    assert forall|r: int| 0 <= r < after.len() implies has_group(ng, (#[trigger] after[r]).0) by {
        if r < rows.len() {
            assert(after[r] == rows[r]);
            assert(has_group(groups, rows[r].0));
            let h = choose|h: int|
                0 <= h < groups.len() && (#[trigger] groups[h]).key@ == rows[r].0;
            assert(ng[h].key@ == groups[h].key@);
        } else {
            assert(ng[j].key@ == after[r].0);
        }
    }
    assert forall|h: int| 0 <= h < ng.len() implies has_row(after, (#[trigger] ng[h]).key@) by {
        assert(ng[h].key@ == groups[h].key@);
        assert(has_row(rows, groups[h].key@));
        let r = choose|r: int|
            0 <= r < rows.len() && (#[trigger] rows[r]).0 == groups[h].key@;
        assert(after[r] == rows[r]);
    }
    assert forall|a: int, b: int| 0 <= a < b < ng.len() implies (#[trigger] ng[a]).key@
        != (#[trigger] ng[b]).key@ by {
        assert(ng[a].key@ == groups[a].key@);
        assert(ng[b].key@ == groups[b].key@);
    }
    assert forall|k: int| 0 <= k < ng.len() implies (#[trigger] ng[k]).total
        == ng[k].students@.len() by {
        if k != j {
            assert(ng[k] == groups[k]);
        }
    }
}

proof fn lemma_sum_members(groups: Seq<Group>, rows: Seq<KeyedView>)
    requires
        is_grouping_of(groups, rows),
    ensures
        sum_members(groups) == sum_totals(groups),
{
    reveal(is_grouping_of);
    lemma_sum_members_totals(groups);
}

proof fn lemma_sum_members_totals(groups: Seq<Group>)
    requires
        forall|g: int|
            0 <= g < groups.len() ==> (#[trigger] groups[g]).total == groups[g].students@.len(),
    ensures
        sum_members(groups) == sum_totals(groups),
    decreases groups.len(),
{
    if groups.len() > 0 {
        let prefix = groups.drop_last();
        assert forall|g: int| 0 <= g < prefix.len() implies (#[trigger] prefix[g]).total
            == prefix[g].students@.len() by {
            assert(prefix[g] == groups[g]);
        }
        lemma_sum_members_totals(prefix);
        assert(groups.last() == groups[groups.len() - 1]);
    }
}

proof fn lemma_grouping_total(groups: Seq<Group>, rows: Seq<KeyedView>, j: int)
    requires
        is_grouping_of(groups, rows),
        0 <= j < groups.len(),
    ensures
        groups[j].total == groups[j].students@.len(),
{
    reveal(is_grouping_of);
}

/// Adding a row whose key has no group yet opens a group for it.
proof fn lemma_grouping_open(groups: Seq<Group>, rows: Seq<KeyedView>, g: Group, row: KeyedView)
    requires
        is_grouping_of(groups, rows),
        forall|k: int| 0 <= k < groups.len() ==> (#[trigger] groups[k]).key@ != row.0,
        g.key@ == row.0,
        group_members(g) == seq![row.1],
        g.total == g.students@.len(),
    ensures
        is_grouping_of(groups.push(g), rows.push(row)),
{
    reveal(is_grouping_of);
    let after = rows.push(row);
    let ng = groups.push(g);
    assert forall|r: int| 0 <= r < rows.len() implies (#[trigger] rows[r]).0 != row.0 by {
        assert(has_group(groups, rows[r].0));
        let h = choose|h: int|
            0 <= h < groups.len() && (#[trigger] groups[h]).key@ == rows[r].0;
        assert(groups[h].key@ != row.0);
    }
    lemma_members_absent(rows, row.0);
    assert forall|k: int| 0 <= k < ng.len() implies group_members(#[trigger] ng[k])
        == members_with_key(after, ng[k].key@) by {
        lemma_members_push(rows, row, ng[k].key@);
        if k < groups.len() {
            assert(ng[k] == groups[k]);
        } else {
            assert(seq![row.1] =~= Seq::<StudentView>::empty().push(row.1));
        }
    }
    assert forall|r: int| 0 <= r < after.len() implies has_group(ng, (#[trigger] after[r]).0) by {
        if r < rows.len() {
            assert(after[r] == rows[r]);
            assert(has_group(groups, rows[r].0));
            let h = choose|h: int|
                0 <= h < groups.len() && (#[trigger] groups[h]).key@ == rows[r].0;
            assert(ng[h] == groups[h]);
        } else {
            assert(ng[groups.len() as int].key@ == after[r].0);
        }
    }
    assert forall|h: int| 0 <= h < ng.len() implies has_row(after, (#[trigger] ng[h]).key@) by {
        if h < groups.len() {
            assert(ng[h] == groups[h]);
            assert(has_row(rows, groups[h].key@));
        let r = choose|r: int|
            0 <= r < rows.len() && (#[trigger] rows[r]).0 == groups[h].key@;
            assert(after[r] == rows[r]);
        } else {
            assert(after[rows.len() as int].0 == row.0);
        }
    }
    assert forall|a: int, b: int| 0 <= a < b < ng.len() implies (#[trigger] ng[a]).key@
        != (#[trigger] ng[b]).key@ by {
        assert(ng[a] == groups[a]);
        if b < groups.len() {
            assert(ng[b] == groups[b]);
        }
    }
}

/// Groups keyed rows: each distinct key gets one group, which keeps the
/// students of that key in the order of the rows, with their count. This is
/// the aggregation over the rows of a store-side join.
#[verifier::rlimit(40)]
pub fn group_rows(rows: &Vec<(String, Student)>) -> (groups: Vec<Group>)
    ensures
        is_grouping_of(groups@, rows_view(rows@)),
        sum_totals(groups@) == rows@.len(),
        sum_members(groups@) == rows@.len(),
{
    let mut groups: Vec<Group> = Vec::new();
    let ghost all = rows_view(rows@);
    proof {
        reveal(is_grouping_of);
        assert(all.subrange(0, 0) =~= Seq::<KeyedView>::empty());
    }
    let mut i: usize = 0;
    while i < rows.len()
        invariant
            i <= rows@.len(),
            all == rows_view(rows@),
            is_grouping_of(groups@, all.subrange(0, i as int)),
            sum_totals(groups@) == i,
        decreases rows@.len() - i,
    {
        let ghost before = all.subrange(0, i as int);
        let ghost old_groups = groups@;
        assert(all.subrange(0, i + 1) =~= before.push(all[i as int]));
        let key = &rows[i].0;
        let student = &rows[i].1;
        assert(all[i as int] == (key@, student@));
        let mut j: usize = 0;
        let mut found = false;
        while !found && j < groups.len()
            invariant
                j <= groups@.len(),
                groups@ == old_groups,
                !found ==> forall|k: int| 0 <= k < j ==> (#[trigger] groups@[k]).key@ != key@,
                found ==> j < groups@.len() && groups@[j as int].key@ == key@,
            decreases groups@.len() - j + (if found { 0int } else { 1int }),
        {
            if groups[j].key == *key {
                found = true;
            } else {
                j = j + 1;
            }
        }
        if found {
            let mut g = groups.remove(j);
            let ghost old_g = g;
            g.students.push(student.clone());
            g.total = g.students.len();
            groups.insert(j, g);
            proof {
                lemma_grouping_total(old_groups, before, j as int);
                assert(groups@ =~= old_groups.update(j as int, g));
                lemma_sum_totals_update(old_groups, j as int, g);
                assert(group_members(g) =~= group_members(old_g).push(student@));
                lemma_grouping_extend(old_groups, before, j as int, g, all[i as int]);
            }
        } else {
            let mut members: Vec<Student> = Vec::new();
            members.push(student.clone());
            let g = Group { key: key.clone(), students: members, total: 1 };
            groups.push(g);
            proof {
                assert(group_members(g) =~= seq![student@]);
                assert(groups@.drop_last() =~= old_groups);
                lemma_grouping_open(old_groups, before, g, all[i as int]);
            }
        }
        i = i + 1;
    }
    assert(all.subrange(0, rows@.len() as int) =~= all);
    proof {
        lemma_sum_members(groups@, all);
    }
    groups
}

/// The course of a student, where `courses` holds it.
pub open spec fn course_of(s: StudentView, courses: Seq<Course>) -> Option<Course> {
    first_match(courses, course_has_id(s.course_id))
}

/// Every student's course is in `courses`.
pub open spec fn courses_resolved(students: Seq<StudentView>, courses: Seq<Course>) -> bool {
    forall|i: int| 0 <= i < students.len() ==> course_of(#[trigger] students[i], courses) is Some
}

/// The keys a student is grouped under: the name of its course, its
/// language, or each of its operating systems.
pub open spec fn keys_of(s: StudentView, by: GroupBy, courses: Seq<Course>) -> Seq<Seq<char>> {
    match by {
        GroupBy::COURSE => match course_of(s, courses) {
            Some(c) => seq![c.name@],
            None => Seq::empty(),
        },
        GroupBy::LANGUAGE => seq![s.language],
        GroupBy::OS => s.operational_systems,
    }
}

/// A student paired with each of `keys`.
pub open spec fn keyed(s: StudentView, keys: Seq<Seq<char>>) -> Seq<KeyedView> {
    keys.map_values(|k: Seq<char>| (k, s))
}

/// The students paired with their keys, student by student.
pub open spec fn grouping_rows(
    students: Seq<StudentView>,
    by: GroupBy,
    courses: Seq<Course>,
) -> Seq<KeyedView>
    decreases students.len(),
{
    if students.len() == 0 {
        Seq::empty()
    } else {
        grouping_rows(students.drop_last(), by, courses) + keyed(
            students.last(),
            keys_of(students.last(), by, courses),
        )
    }
}

/// How many operating systems the students name in all, counting each
/// student's list in full.
pub open spec fn total_systems(students: Seq<StudentView>) -> int
    decreases students.len(),
{
    if students.len() == 0 {
        0
    } else {
        total_systems(students.drop_last()) + students.last().operational_systems.len()
    }
}

/// Grouping by operating system fans out: a student with k systems gives k
/// rows, so the rows number as many as the systems named in all.
pub proof fn lemma_os_fan_out(students: Seq<StudentView>, courses: Seq<Course>)
    ensures
        grouping_rows(students, GroupBy::OS, courses).len() == total_systems(students),
    decreases students.len(),
{
    if students.len() > 0 {
        lemma_os_fan_out(students.drop_last(), courses);
    }
}

/// Pairs each student with its keys for `by`, in student order. Grouping by
/// course fails with `DataIntegrityError` when a student's course is not in
/// `courses`.
pub fn keyed_rows(students: &Vec<Student>, by: GroupBy, courses: &Vec<Course>) -> (r: Result<
    Vec<(String, Student)>,
    ServiceError,
>)
    ensures
        match r {
            Ok(rows) => {
                &&& by == GroupBy::COURSE ==> courses_resolved(student_views(students@), courses@)
                &&& rows_view(rows@) == grouping_rows(student_views(students@), by, courses@)
            },
            Err(e) => {
                &&& by == GroupBy::COURSE
                &&& !courses_resolved(student_views(students@), courses@)
                &&& e is DataIntegrityError
            },
        },
{
    let ghost views = student_views(students@);
    let mut rows: Vec<(String, Student)> = Vec::new();
    let mut i: usize = 0;
    assert(rows_view(rows@) =~= grouping_rows(views.subrange(0, 0), by, courses@));
    while i < students.len()
        invariant
            i <= students@.len(),
            views == student_views(students@),
            rows_view(rows@) == grouping_rows(views.subrange(0, i as int), by, courses@),
            by == GroupBy::COURSE ==> forall|k: int|
                0 <= k < i ==> course_of(#[trigger] views[k], courses@) is Some,
        decreases students@.len() - i,
    {
        let student = &students[i];
        let ghost sv = student@;
        let ghost before = rows_view(rows@);
        assert(views.subrange(0, i + 1).drop_last() =~= views.subrange(0, i as int));
        assert(views.subrange(0, i + 1).last() == sv);
        match by {
            GroupBy::COURSE => {
                match find_course(courses, &student.course_id) {
                    Some(c) => {
                        proof {
                            lemma_first_match_at(courses@, course_has_id(sv.course_id), c as int);
                        }
                        rows.push((courses[c].name.clone(), student.clone()));
                        assert(keyed(sv, keys_of(sv, by, courses@)) =~= seq![
                            (courses@[c as int].name@, sv),
                        ]);
                        assert(rows_view(rows@) =~= before + keyed(sv, keys_of(sv, by, courses@)));
                    },
                    None => {
                        proof {
                            lemma_first_match_none(courses@, course_has_id(sv.course_id));
                            assert(course_of(views[i as int], courses@) is None);
                        }
                        return Err(
                            ServiceError::DataIntegrityError(
                                "a student refers to a course that does not exist".to_string(),
                            ),
                        );
                    },
                }
            },
            GroupBy::LANGUAGE => {
                rows.push((student.language.clone(), student.clone()));
                assert(keyed(sv, keys_of(sv, by, courses@)) =~= seq![(sv.language, sv)]);
                assert(rows_view(rows@) =~= before + keyed(sv, keys_of(sv, by, courses@)));
            },
            GroupBy::OS => {
                let systems = &student.operational_systems;
                let mut j: usize = 0;
                while j < systems.len()
                    invariant
                        j <= systems@.len(),
                        *systems == student.operational_systems,
                        sv == student@,
                        rows_view(rows@) == before + keyed(
                            sv,
                            sv.operational_systems.subrange(0, j as int),
                        ),
                    decreases systems@.len() - j,
                {
                    let ghost prev = rows@;
                    rows.push((systems[j].clone(), student.clone()));
                    assert(rows_view(rows@) =~= rows_view(prev).push(
                        (systems@[j as int]@, sv),
                    ));
                    assert(sv.operational_systems[j as int] == systems@[j as int]@);
                    assert(keyed(sv, sv.operational_systems.subrange(0, j + 1)) =~= keyed(
                        sv,
                        sv.operational_systems.subrange(0, j as int),
                    ).push((systems@[j as int]@, sv)));
                    assert(rows_view(rows@) =~= before + keyed(
                        sv,
                        sv.operational_systems.subrange(0, j + 1),
                    ));
                    j = j + 1;
                }
                assert(sv.operational_systems.subrange(0, j as int) =~= sv.operational_systems);
            },
        }
        i = i + 1;
    }
    assert(views.subrange(0, students@.len() as int) =~= views);
    Ok(rows)
}

/// Groups students by `by`: by the name of their course, by their language,
/// or by each of their operating systems, where a student with k systems is
/// a member of k groups. Fails with `DataIntegrityError`, and groups nothing,
/// when grouping by course meets a student whose course is not in `courses`.
pub fn group_students(students: &Vec<Student>, by: GroupBy, courses: &Vec<Course>) -> (r: Result<
    Vec<Group>,
    ServiceError,
>)
    ensures
        match r {
            Ok(groups) => {
                &&& by == GroupBy::COURSE ==> courses_resolved(student_views(students@), courses@)
                &&& is_grouping_of(groups@, grouping_rows(student_views(students@), by, courses@))
                &&& sum_totals(groups@) == grouping_rows(
                    student_views(students@),
                    by,
                    courses@,
                ).len()
                &&& by == GroupBy::OS ==> sum_totals(groups@) == total_systems(
                    student_views(students@),
                )
                &&& by == GroupBy::OS ==> sum_members(groups@) == total_systems(
                    student_views(students@),
                )
            },
            Err(e) => {
                &&& by == GroupBy::COURSE
                &&& !courses_resolved(student_views(students@), courses@)
                &&& e is DataIntegrityError
            },
        },
{
    let rows = keyed_rows(students, by, courses)?;
    proof {
        lemma_os_fan_out(student_views(students@), courses@);
    }
    Ok(group_rows(&rows))
}

} // verus!
