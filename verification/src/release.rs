//! Releasing holders, step by step: what each of them holds is closed if it is
//! the last one of its object, then its domain table goes if it is the last one
//! that has it, and only then comes the next holder.

use vstd::prelude::*;

use crate::holder::{CloseAction, ObjectKey, ServerHolder};
use crate::manager::ServerManager;
use crate::results::ResultCode;
use crate::tables::TableKey;

verus! {

use crate::manager::ManagerModel;

/// What is to be done next, and reported.
#[derive(Copy, Clone, PartialEq, Eq, Debug)]
pub enum ReleaseAction {
    /// Tell how often something besides the holders that the library knows holds
    /// this object, and how often it has a holder with this domain table.
    CountUses { object: ObjectKey, domain_table: TableKey },
    /// Close something.
    Close { action: CloseAction },
    /// Nothing: all holders are released.
    Finish,
}

/// How far holders were released: what is being waited for.
#[derive(Copy, Clone, PartialEq, Eq, Structural, Debug)]
pub enum ReleaseStage {
    Counting,
    Closing { action: CloseAction, table_elsewhere: usize },
    Finished,
}

/// Holders that are being released.
pub struct Release {
    released: Vec<ServerHolder>,
    at: usize,
    stage: ReleaseStage,
}

/// The model of [`Release`].
#[verifier::ext_equal]
pub struct ReleaseModel {
    /// The holders, in order; those before `at` are gone.
    pub released: Seq<ServerHolder>,
    pub at: int,
    pub stage: ReleaseStage,
}

impl View for Release {
    type V = ReleaseModel;

    closed spec fn view(&self) -> ReleaseModel {
        ReleaseModel { released: self.released@, at: self.at as int, stage: self.stage }
    }
}

impl ReleaseModel {
    /// The holder that is being released is there.
    pub open spec fn valid(self) -> bool {
        0 <= self.at <= self.released.len() && (self.stage !is Finished ==> self.at
            < self.released.len())
    }

    /// The next holder is looked at.
    pub open spec fn look(self) -> (ReleaseModel, ReleaseAction) {
        if self.at < self.released.len() {
            (
                ReleaseModel { stage: ReleaseStage::Counting, ..self },
                ReleaseAction::CountUses {
                    object: self.released[self.at].server,
                    domain_table: self.released[self.at].domain_table,
                },
            )
        } else {
            (ReleaseModel { stage: ReleaseStage::Finished, ..self }, ReleaseAction::Finish)
        }
    }

    /// The holder is closed: its domain table goes if it is the last one that has
    /// it, the table's objects are released next, and the next holder is looked
    /// at.
    pub open spec fn gone(self, m: ManagerModel, table_elsewhere: usize) -> (
        ManagerModel,
        ReleaseModel,
        ReleaseAction,
    ) {
        let (next, action) = (ReleaseModel {
            released: m.released_after(self.released, self.at, table_elsewhere as nat),
            at: self.at + 1,
            ..self
        }).look();
        (m.after_release(self.released, self.at, table_elsewhere as nat), next, action)
    }

    /// The holder goes on closing with this action.
    pub open spec fn go_on(self, m: ManagerModel, action: CloseAction, table_elsewhere: usize) -> (
        ManagerModel,
        ReleaseModel,
        ReleaseAction,
    ) {
        if action is Done {
            self.gone(m, table_elsewhere)
        } else {
            (
                m,
                ReleaseModel {
                    stage: ReleaseStage::Closing { action, table_elsewhere },
                    ..self
                },
                ReleaseAction::Close { action },
            )
        }
    }

    /// The uses of the holder's object and of its domain table elsewhere were
    /// told: what it holds is closed if it is the last one of its object.
    pub open spec fn counted(
        self,
        m: ManagerModel,
        object_elsewhere: usize,
        table_elsewhere: usize,
    ) -> (ManagerModel, ReleaseModel, ReleaseAction) {
        self.go_on(
            m,
            self.released[self.at].drop_action(
                m.use_count(self.released, self.at, object_elsewhere as nat) as int,
            ),
            table_elsewhere,
        )
    }

    /// Something was closed: a handle is closed after a name was given up, and
    /// nothing comes after a handle.
    pub open spec fn closed(self, m: ManagerModel) -> (ManagerModel, ReleaseModel, ReleaseAction) {
        let action = self.stage->action;
        self.go_on(
            m,
            if action is UninstallMitm || action is UnregisterService {
                self.released[self.at].close_handle_action()
            } else {
                CloseAction::Done
            },
            self.stage->table_elsewhere,
        )
    }
}

impl Release {
    /// Starts to release holders.
    pub fn new(released: Vec<ServerHolder>) -> (r: (Release, ReleaseAction))
        ensures
            r.0@.valid(),
            (r.0@, r.1) == (ReleaseModel {
                released: released@,
                at: 0,
                stage: ReleaseStage::Finished,
            }).look(),
    {
        let mut release = Release { released, at: 0, stage: ReleaseStage::Finished };
        let action = release.look();
        (release, action)
    }

    /// Looks at the next holder.
    fn look(&mut self) -> (action: ReleaseAction)
        requires
            0 <= old(self)@.at <= old(self)@.released.len(),
        ensures
            final(self)@.valid(),
            (final(self)@, action) == old(self)@.look(),
    {
        let ghost before = self@;
        let action = if self.at < self.released.len() {
            self.stage = ReleaseStage::Counting;
            let holder = &self.released[self.at];
            ReleaseAction::CountUses { object: holder.server, domain_table: holder.domain_table }
        } else {
            self.stage = ReleaseStage::Finished;
            ReleaseAction::Finish
        };
        assert(self@ =~= before.look().0);
        action
    }
}

impl<const P: usize> ServerManager<P> {
    /// Goes on closing a holder with this action.
    fn go_on_releasing(
        &mut self,
        release: &mut Release,
        action: CloseAction,
        table_elsewhere: usize,
    ) -> (next: ReleaseAction)
        requires
            old(self)@.wf(),
            old(release)@.valid(),
            old(release)@.stage !is Finished,
        ensures
            final(self)@.wf(),
            final(release)@.valid(),
            (final(self)@, final(release)@, next) == old(release)@.go_on(
                old(self)@,
                action,
                table_elsewhere,
            ),
    {
        let ghost before = release@;
        match action {
            CloseAction::Done => {
                assert(release.at < release.released.len());
                self.release_table(&mut release.released, release.at, table_elsewhere);
                release.at = release.at + 1;
                assert(release@ =~= (ReleaseModel {
                    released: old(self)@.released_after(
                        before.released,
                        before.at,
                        table_elsewhere as nat,
                    ),
                    at: before.at + 1,
                    ..before
                }));
                release.look()
            },
            _ => {
                release.stage = ReleaseStage::Closing { action, table_elsewhere };
                assert(release@ =~= before.go_on(self@, action, table_elsewhere).1);
                ReleaseAction::Close { action }
            },
        }
    }

    /// Goes on after the uses of an object and of a domain table elsewhere were
    /// told.
    pub fn uses_counted(
        &mut self,
        release: &mut Release,
        object_elsewhere: usize,
        table_elsewhere: usize,
    ) -> (next: ReleaseAction)
        requires
            old(self)@.wf(),
            old(release)@.valid(),
            old(release)@.stage is Counting,
        ensures
            final(self)@.wf(),
            final(release)@.valid(),
            (final(self)@, final(release)@, next) == old(release)@.counted(
                old(self)@,
                object_elsewhere,
                table_elsewhere,
            ),
    {
        let action = self.release(&release.released, release.at, object_elsewhere);
        self.go_on_releasing(release, action, table_elsewhere)
    }

    /// Goes on after something was to be closed. Where that failed, releasing
    /// ends there.
    pub fn closed(
        &mut self,
        release: &mut Release,
        outcome: Result<(), ResultCode>,
    ) -> (r: Result<ReleaseAction, ResultCode>)
        requires
            old(self)@.wf(),
            old(release)@.valid(),
            old(release)@.stage is Closing,
        ensures
            final(self)@.wf(),
            final(release)@.valid(),
            match outcome {
                Ok(_) => r matches Ok(next) && (final(self)@, final(release)@, next) == old(
                    release,
                )@.closed(old(self)@),
                Err(rc) => r == Err::<ReleaseAction, ResultCode>(rc) && final(self)@ == old(self)@
                    && final(release)@ == old(release)@,
            },
    {
        let (action, table_elsewhere): (CloseAction, usize) = match release.stage {
            ReleaseStage::Closing { action, table_elsewhere } => (action, table_elsewhere),
            _ => (CloseAction::Done, 0),
        };
        match release.released[release.at].close_after(action, outcome) {
            Ok(next) => Ok(self.go_on_releasing(release, next, table_elsewhere)),
            Err(rc) => Err(rc),
        }
    }
}

/// A holder that owns no handle and has no service name closes nothing.
pub proof fn law_unowned_handle_is_not_closed(holder: ServerHolder, use_count: int)
    requires
        !holder.info.owns_handle,
        holder.service_name.value == 0,
    ensures
        holder.drop_action(use_count) is Done,
{
}

/// A name is given up before the handle is closed, and after the handle nothing
/// more is closed: then the domain table goes, and the next holder comes.
pub proof fn law_holder_is_closed_in_order(m: ManagerModel, r: ReleaseModel)
    requires
        r.valid(),
        r.stage is Closing,
    ensures
        ({
            let holder = r.released[r.at];
            let (after, next, action) = r.closed(m);
            let (freed, following, look) = r.gone(m, r.stage->table_elsewhere);
            &&& r.stage->action is CloseHandle ==> (after, next, action) == (freed, following, look)
            &&& r.stage->action is UninstallMitm || r.stage->action is UnregisterService ==> {
                if holder.info.owns_handle {
                    action == (ReleaseAction::Close {
                        action: CloseAction::CloseHandle { handle: holder.info.handle },
                    }) && after == m
                } else {
                    (after, next, action) == (freed, following, look)
                }
            }
        }),
{
}

/// Holders are released one after the other: those that are gone stay gone, the
/// others keep their order, and the objects of a domain that goes with a holder
/// come before the next holder.
pub proof fn law_holders_are_released_in_order(
    m: ManagerModel,
    r: ReleaseModel,
    table_elsewhere: usize,
)
    requires
        r.valid(),
        r.stage !is Finished,
    ensures
        ({
            let (after, next, action) = r.gone(m, table_elsewhere);
            let objects = if m.frees_table(r.released, r.at, table_elsewhere as nat) {
                m.tables.table(r.released[r.at].domain_table).domains
            } else {
                Seq::empty()
            };
            &&& next.at == r.at + 1
            &&& next.released == r.released.take(r.at + 1) + objects + r.released.skip(r.at + 1)
            &&& action is Finish <==> objects.len() == 0 && r.at + 1 == r.released.len()
            &&& after.holders == m.holders
        }),
{
    let objects = Seq::<ServerHolder>::empty();
    assert(r.released.take(r.at + 1) + objects + r.released.skip(r.at + 1) =~= r.released);
}

} // verus!
