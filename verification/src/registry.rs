use crate::project::{Project, ProjectView};
use vstd::prelude::*;

verus! {

/// Why a project was not registered.
#[derive(Debug, Clone, Copy, PartialEq, Eq, Structural)]
pub enum RegistryError {
    /// A registered project has the same short identifier.
    Conflict,
    /// The short identifier is empty or is the first segment of a global route.
    Reserved,
}

impl RegistryError {
    /// What went wrong, in words.
    pub open spec fn text(self) -> Seq<char> {
        match self {
            RegistryError::Conflict => "A project with this short id is already registered"@,
            RegistryError::Reserved => "The short id is reserved for the gateway"@,
        }
    }

    /// The words for this error.
    pub fn message(&self) -> (message: &'static str)
        ensures
            message@ == self.text(),
    {
        match self {
            RegistryError::Conflict => "A project with this short id is already registered",
            RegistryError::Reserved => "The short id is reserved for the gateway",
        }
    }
}

/// The projects of a gateway, in the order in which they were registered.
pub struct ProjectRegistry {
    projects: Vec<Project>,
}

/// The views of a sequence of projects.
pub open spec fn views(projects: Seq<Project>) -> Seq<ProjectView> {
    projects.map_values(|p: Project| p@)
}

/// A short identifier that no tenant may have: the empty one, and the first segments of
/// the global routes.
pub open spec fn is_reserved(short_id: Seq<char>) -> bool {
    short_id.len() == 0 || short_id == "ping"@ || short_id == "health"@ || short_id == "projects"@
}

/// Whether one of `list` has the short identifier `short_id`.
pub open spec fn has_short_id(list: Seq<ProjectView>, short_id: Seq<char>) -> bool {
    exists|i: int| 0 <= i < list.len() && (#[trigger] list[i]).short_id == short_id
}

/// No two of `list` share a short identifier.
pub open spec fn short_ids_distinct(list: Seq<ProjectView>) -> bool {
    forall|i: int, j: int|
        0 <= i < j < list.len() ==> (#[trigger] list[i]).short_id != (#[trigger] list[j]).short_id
}

/// What a registry may hold: well-formed projects, none with a reserved short identifier,
/// no two with the same one.
pub open spec fn registry_wf(list: Seq<ProjectView>) -> bool {
    &&& forall|i: int| 0 <= i < list.len() ==> (#[trigger] list[i]).wf()
    &&& forall|i: int| 0 <= i < list.len() ==> !is_reserved((#[trigger] list[i]).short_id)
    &&& short_ids_distinct(list)
}

/// Where the first project with the short identifier `short_id` stands in `list`.
pub open spec fn position(list: Seq<ProjectView>, short_id: Seq<char>) -> Option<int>
    decreases list.len(),
{
    if list.len() == 0 {
        None
    } else {
        match position(list.drop_last(), short_id) {
            Some(i) => Some(i),
            None => if list.last().short_id == short_id {
                Some(list.len() - 1)
            } else {
                None
            },
        }
    }
}

/// `list` after the registration of `project`: it is appended, unless its short identifier
/// is reserved or taken.
pub open spec fn added(list: Seq<ProjectView>, project: ProjectView) -> Result<
    Seq<ProjectView>,
    RegistryError,
> {
    if is_reserved(project.short_id) {
        Err(RegistryError::Reserved)
    } else if has_short_id(list, project.short_id) {
        Err(RegistryError::Conflict)
    } else {
        Ok(list.push(project))
    }
}

/// `list` without the projects that have the short identifier `short_id`.
pub open spec fn removed(list: Seq<ProjectView>, short_id: Seq<char>) -> Seq<ProjectView> {
    list.filter(|p: ProjectView| p.short_id != short_id)
}

/// `position` finds the first project with the short identifier, and finds none only where
/// there is none.
pub proof fn lemma_position(list: Seq<ProjectView>, short_id: Seq<char>)
    ensures
        match position(list, short_id) {
            Some(i) => 0 <= i < list.len() && list[i].short_id == short_id && forall|j: int|
                0 <= j < i ==> (#[trigger] list[j]).short_id != short_id,
            None => !has_short_id(list, short_id),
        },
    decreases list.len(),
{
    if list.len() > 0 {
        lemma_position(list.drop_last(), short_id);
        match position(list.drop_last(), short_id) {
            Some(i) => {
                assert(list[i] == list.drop_last()[i]);
                assert forall|j: int| 0 <= j < i implies (#[trigger] list[j]).short_id
                    != short_id by {
                    assert(list[j] == list.drop_last()[j]);
                }
            },
            None => {
                assert forall|j: int| 0 <= j < list.len() - 1 implies (#[trigger] list[j]).short_id
                    != short_id by {
                    assert(list[j] == list.drop_last()[j]);
                }
            },
        }
    }
}

/// Removing a short identifier that no project has changes nothing.
pub proof fn lemma_removed_absent(list: Seq<ProjectView>, short_id: Seq<char>)
    requires
        !has_short_id(list, short_id),
    ensures
        removed(list, short_id) == list,
    decreases list.len(),
{
    reveal(Seq::filter);
    if list.len() > 0 {
        assert forall|j: int| 0 <= j < list.len() - 1 implies (#[trigger] list.drop_last()[j]).short_id
            != short_id by {
            assert(list.drop_last()[j] == list[j]);
        }
        lemma_removed_absent(list.drop_last(), short_id);
        assert(list.last() == list[list.len() - 1]);
        assert(list.drop_last().push(list.last()) =~= list);
    }
}

/// Where short identifiers are distinct, removing one takes out the single project at its
/// position.
pub proof fn lemma_removed_at(list: Seq<ProjectView>, short_id: Seq<char>, i: int)
    requires
        short_ids_distinct(list),
        0 <= i < list.len(),
        list[i].short_id == short_id,
    ensures
        removed(list, short_id) == list.remove(i),
    decreases list.len(),
{
    reveal(Seq::filter);
    let rest = list.drop_last();
    if i == list.len() - 1 {
        assert forall|j: int| 0 <= j < rest.len() implies (#[trigger] rest[j]).short_id
            != short_id by {
            assert(rest[j] == list[j]);
        }
        lemma_removed_absent(rest, short_id);
        assert(list.remove(i) =~= rest);
    } else {
        assert forall|a: int, b: int| 0 <= a < b < rest.len() implies (#[trigger] rest[a]).short_id
            != (#[trigger] rest[b]).short_id by {
            assert(rest[a] == list[a] && rest[b] == list[b]);
        }
        assert(rest[i] == list[i]);
        lemma_removed_at(rest, short_id, i);
        assert(list.last() == list[list.len() - 1]);
        assert(rest.remove(i).push(list.last()) =~= list.remove(i));
    }
}

/// `list` after each of `projects` was handed to the registry in turn; one that is refused
/// leaves it as it was.
pub open spec fn added_all(list: Seq<ProjectView>, projects: Seq<ProjectView>) -> Seq<ProjectView>
    decreases projects.len(),
{
    if projects.len() == 0 {
        list
    } else {
        let before = added_all(list, projects.drop_last());
        match added(before, projects.last()) {
            Ok(after) => after,
            Err(_) => before,
        }
    }
}

/// `list` after each of `short_ids` was removed in turn.
pub open spec fn removed_all(list: Seq<ProjectView>, short_ids: Seq<Seq<char>>) -> Seq<ProjectView>
    decreases short_ids.len(),
{
    if short_ids.len() == 0 {
        list
    } else {
        removed(removed_all(list, short_ids.drop_last()), short_ids.last())
    }
}

/// A project that was registered is listed: it stands last, behind the projects that were
/// listed before, which keep their places.
pub proof fn law_added_is_listed(list: Seq<ProjectView>, project: ProjectView)
    requires
        added(list, project) is Ok,
    ensures
        added(list, project)->Ok_0.contains(project),
        added(list, project)->Ok_0.last() == project,
        added(list, project)->Ok_0.drop_last() == list,
        position(added(list, project)->Ok_0, project.short_id) == Some(list.len() as int),
{
    let after = list.push(project);
    assert(after[list.len() as int] == project);
    assert(after.drop_last() =~= list);
    lemma_position(list, project.short_id);
}

/// After a short identifier was removed no listed project has it; every other project is
/// listed as before, and nothing else is.
pub proof fn law_removed_is_not_listed(list: Seq<ProjectView>, short_id: Seq<char>)
    ensures
        !has_short_id(removed(list, short_id), short_id),
        position(removed(list, short_id), short_id) is None,
        forall|p: ProjectView|
            list.contains(p) && p.short_id != short_id ==> #[trigger] removed(
                list,
                short_id,
            ).contains(p),
        forall|p: ProjectView| #[trigger] removed(list, short_id).contains(p) ==> list.contains(p),
{
    let keep = |p: ProjectView| p.short_id != short_id;
    let rest = removed(list, short_id);
    assert forall|i: int| 0 <= i < rest.len() implies (#[trigger] rest[i]).short_id
        != short_id by {
        list.lemma_filter_pred(keep, i);
    }
    assert forall|p: ProjectView| list.contains(p) && p.short_id != short_id implies rest.contains(
        p,
    ) by {
        let i = choose|i: int| 0 <= i < list.len() && list[i] == p;
        list.lemma_filter_contains(keep, i);
    }
    assert forall|p: ProjectView| rest.contains(p) implies list.contains(p) by {
        list.lemma_filter_contains_rev(keep, p);
    }
    lemma_position(rest, short_id);
}

/// Registering a project and then removing its short identifier gives back the registry
/// as it was.
pub proof fn law_added_then_removed(list: Seq<ProjectView>, project: ProjectView)
    requires
        added(list, project) is Ok,
    ensures
        removed(added(list, project)->Ok_0, project.short_id) == list,
{
    reveal(Seq::filter);
    let after = list.push(project);
    assert(after.drop_last() =~= list);
    lemma_removed_absent(list, project.short_id);
}

/// In a well-formed registry no two projects share an identifier either.
pub proof fn law_identifiers_are_distinct(list: Seq<ProjectView>, i: int, j: int)
    requires
        registry_wf(list),
        0 <= i < j < list.len(),
    ensures
        list[i].id != list[j].id,
        list[i].short_id != list[j].short_id,
{
    assert(list[i].wf() && list[j].wf());
}

/// Registration and removal keep a registry well-formed.
pub proof fn law_registry_stays_well_formed(
    list: Seq<ProjectView>,
    project: ProjectView,
    short_id: Seq<char>,
)
    requires
        registry_wf(list),
        project.wf(),
    ensures
        added(list, project) matches Ok(after) ==> registry_wf(after),
        registry_wf(removed(list, short_id)),
{
    lemma_position(list, short_id);
    match position(list, short_id) {
        Some(i) => {
            lemma_removed_at(list, short_id, i);
        },
        None => {
            lemma_removed_absent(list, short_id);
        },
    }
}

proof fn lemma_added_all_come_from(list: Seq<ProjectView>, projects: Seq<ProjectView>, p: ProjectView)
    requires
        added_all(list, projects).contains(p),
    ensures
        list.contains(p) || projects.contains(p),
    decreases projects.len(),
{
    if projects.len() > 0 {
        let before = added_all(list, projects.drop_last());
        let last = projects.last();
        assert(projects[projects.len() - 1] == last);
        if before.contains(p) {
            lemma_added_all_come_from(list, projects.drop_last(), p);
            if projects.drop_last().contains(p) {
                let i = choose|i: int| 0 <= i < projects.drop_last().len() && projects.drop_last()[i] == p;
                assert(projects[i] == p);
            }
        } else {
            let after = before.push(last);
            let i = choose|i: int| 0 <= i < after.len() && after[i] == p;
            if i < before.len() {
                assert(before[i] == p);
            }
        }
    }
}

proof fn lemma_removed_all_keeps_none(list: Seq<ProjectView>, short_ids: Seq<Seq<char>>, p: ProjectView)
    requires
        removed_all(list, short_ids).contains(p),
    ensures
        list.contains(p),
        !short_ids.contains(p.short_id),
    decreases short_ids.len(),
{
    if short_ids.len() > 0 {
        let before = removed_all(list, short_ids.drop_last());
        law_removed_is_not_listed(before, short_ids.last());
        lemma_removed_all_keeps_none(list, short_ids.drop_last(), p);
        let i = choose|i: int| 0 <= i < removed(before, short_ids.last()).len() && removed(before, short_ids.last())[i] == p;
        assert(p.short_id != short_ids.last());
        if short_ids.contains(p.short_id) {
            let k = choose|k: int| 0 <= k < short_ids.len() && short_ids[k] == p.short_id;
            assert(short_ids.drop_last()[k] == p.short_id);
        }
    }
}

/// A registry that starts empty is empty again once the short identifier of every project
/// that was handed to it has been removed, in whatever order and however often.
pub proof fn law_all_added_all_removed(projects: Seq<ProjectView>, short_ids: Seq<Seq<char>>)
    requires
        forall|i: int| 0 <= i < projects.len() ==> short_ids.contains((#[trigger] projects[i]).short_id),
    ensures
        removed_all(added_all(Seq::empty(), projects), short_ids) == Seq::<ProjectView>::empty(),
{
    let filled = added_all(Seq::empty(), projects);
    let left = removed_all(filled, short_ids);
    if left.len() > 0 {
        let p = left[0];
        assert(left.contains(p));
        lemma_removed_all_keeps_none(filled, short_ids, p);
        lemma_added_all_come_from(Seq::empty(), projects, p);
        let i = choose|i: int| 0 <= i < projects.len() && projects[i] == p;
        assert(short_ids.contains(projects[i].short_id));
    }
    assert(left =~= Seq::<ProjectView>::empty());
}

impl View for ProjectRegistry {
    type V = Seq<ProjectView>;

    closed spec fn view(&self) -> Seq<ProjectView> {
        views(self.projects@)
    }
}

impl ProjectRegistry {
    #[verifier::type_invariant]
    spec fn inv(self) -> bool {
        registry_wf(self@)
    }

    /// A registry without projects.
    pub fn new() -> (registry: Self)
        ensures
            registry@ == Seq::<ProjectView>::empty(),
    {
        let registry = ProjectRegistry { projects: Vec::new() };
        assert(registry@ =~= Seq::<ProjectView>::empty());
        registry
    }

    /// How many projects are registered.
    pub fn len(&self) -> (n: usize)
        ensures
            n == self@.len(),
            registry_wf(self@),
    {
        proof {
            use_type_invariant(self);
        }
        self.projects.len()
    }

    /// The project at `index`, if there are that many.
    pub fn get(&self, index: usize) -> (found: Option<&Project>)
        ensures
            match found {
                Some(project) => index < self@.len() && project@ == self@[index as int],
                None => index >= self@.len(),
            },
    {
        if index < self.projects.len() {
            Some(&self.projects[index])
        } else {
            None
        }
    }

    /// Where the project with the short identifier `short_id` stands.
    pub fn position(&self, short_id: &str) -> (found: Option<usize>)
        ensures
            match found {
                Some(i) => position(self@, short_id@) == Some(i as int),
                None => position(self@, short_id@) is None,
            },
    {
        let mut i: usize = 0;
        while i < self.projects.len()
            invariant
                i <= self.projects.len(),
                position(self@.take(i as int), short_id@) is None,
            decreases self.projects.len() - i,
        {
            proof {
                assert(self@.take(i + 1).drop_last() =~= self@.take(i as int));
                assert(self@.take(i + 1).last() == self.projects@[i as int]@);
            }
            if self.projects[i].short_id().eq(short_id) {
                proof {
                    lemma_position_extends(self@, short_id@, i + 1);
                }
                return Some(i);
            }
            i += 1;
        }
        proof {
            assert(self@.take(self@.len() as int) =~= self@);
        }
        None
    }

    /// The project with the short identifier `short_id`, if one is registered.
    pub fn find_by_short_id(&self, short_id: &str) -> (found: Option<&Project>)
        ensures
            match found {
                Some(project) => position(self@, short_id@) matches Some(i) && self@[i]
                    == project@,
                None => position(self@, short_id@) is None,
            },
    {
        match self.position(short_id) {
            Some(i) => {
                proof {
                    lemma_position(self@, short_id@);
                }
                Some(&self.projects[i])
            },
            None => None,
        }
    }

    /// A snapshot of the registered projects, in order.
    pub fn list(&self) -> (snapshot: Vec<Project>)
        ensures
            views(snapshot@) == self@,
            registry_wf(self@),
    {
        proof {
            use_type_invariant(self);
        }
        let mut out: Vec<Project> = Vec::new();
        let mut i: usize = 0;
        while i < self.projects.len()
            invariant
                i <= self.projects.len(),
                views(out@) == self@.take(i as int),
            decreases self.projects.len() - i,
        {
            let ghost before = out@;
            let copy = self.projects[i].clone();
            out.push(copy);
            proof {
                assert(views(before.push(copy)) =~= views(before).push(copy@));
                assert(self@.take(i + 1) =~= self@.take(i as int).push(self@[i as int]));
            }
            i += 1;
        }
        proof {
            assert(self@.take(self@.len() as int) =~= self@);
        }
        out
    }

    /// Registers `project`, unless its short identifier is reserved or taken; then the
    /// registry stays as it is.
    pub fn add(&mut self, project: Project) -> (r: Result<(), RegistryError>)
        ensures
            match added(old(self)@, project@) {
                Ok(list) => r is Ok && final(self)@ == list,
                Err(e) => r == Err::<(), RegistryError>(e) && final(self)@ == old(self)@,
            },
            registry_wf(final(self)@),
    {
        proof {
            use_type_invariant(&*self);
        }
        let short_id = project.short_id();
        if short_id.is_empty() || short_id.eq("ping") || short_id.eq("health") || short_id.eq(
            "projects",
        ) {
            return Err(RegistryError::Reserved);
        }
        proof {
            lemma_position(self@, short_id@);
        }
        if self.position(short_id).is_some() {
            return Err(RegistryError::Conflict);
        }
        let ghost before = self.projects@;
        let mut list: Vec<Project> = Vec::new();
        core::mem::swap(&mut self.projects, &mut list);
        list.push(project);
        proof {
            assert(views(before.push(project)) =~= views(before).push(project@));
            assert(views(Seq::<Project>::empty()) =~= Seq::<ProjectView>::empty());
        }
        core::mem::swap(&mut self.projects, &mut list);
        Ok(())
    }

    /// Takes out the project with the short identifier `short_id`; where there is none,
    /// nothing changes.
    pub fn remove(&mut self, short_id: &str)
        ensures
            final(self)@ == removed(old(self)@, short_id@),
            registry_wf(final(self)@),
    {
        proof {
            use_type_invariant(&*self);
            lemma_position(self@, short_id@);
        }
        match self.position(short_id) {
            None => {
                proof {
                    lemma_removed_absent(self@, short_id@);
                }
            },
            Some(i) => {
                let ghost before = self.projects@;
                let mut list: Vec<Project> = Vec::new();
                proof {
                    assert(views(Seq::<Project>::empty()) =~= Seq::<ProjectView>::empty());
                }
                core::mem::swap(&mut self.projects, &mut list);
                let _ = list.remove(i);
                proof {
                    lemma_removed_at(views(before), short_id@, i as int);
                    assert(views(before.remove(i as int)) =~= views(before).remove(i as int));
                }
                core::mem::swap(&mut self.projects, &mut list);
            },
        }
    }
}

/// `position` on a prefix that holds the short identifier is `position` on the whole.
proof fn lemma_position_extends(list: Seq<ProjectView>, short_id: Seq<char>, n: int)
    requires
        0 <= n <= list.len(),
        position(list.take(n), short_id) is Some,
    ensures
        position(list, short_id) == position(list.take(n), short_id),
    decreases list.len() - n,
{
    if n < list.len() {
        assert(list.take(n + 1).drop_last() =~= list.take(n));
        lemma_position_extends(list, short_id, n + 1);
    } else {
        assert(list.take(n) =~= list);
    }
}

} // verus!
