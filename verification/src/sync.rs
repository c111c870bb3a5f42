//! The sliding sync: the views that are kept in sync together, and its builder.
use vstd::prelude::*;
use futures_signals::signal::Mutable;
use futures_signals::signal_vec::{MutableSignalVec, MutableVec};
use url::Url;
use crate::laws::after_ops_outcome;
use crate::model::{
    after_lists, after_sync_response, built, built_sync, fresh_sync_builder, full_sync_builder,
    grown, lists_fit, numbers_views, ops_for, ops_on_lists, response_fits, settings_of,
    sync_settings_of, target_of, with_view, without_views, ClientModel, SyncBuilderModel, SyncModel,
    ViewModel,
};
use crate::outside::{
    numbers_at_first, numbers_in, numbers_new, numbers_push, numbers_watch, numbers_watched,
    pos_get, pos_in, pos_new, pos_replace,
};
use crate::types::{
    op_refs_view, ops_view, read_ops_view, text_view, texts_view, OpModel, Response, SyncError,
    SyncOp, UInt,
};
use crate::view::{all_ops_sound, copy_texts, SlidingSyncView, Watchers};
use crate::view_builder::SlidingSyncViewBuilder;

verus! {

/// What is known of the server that a client is connected to.
#[derive(Debug)]
pub struct Client {
    /// The address of the server.
    pub homeserver: Url,
    /// The versions of the protocol that the server speaks.
    pub server_versions: Vec<String>,
}

impl View for Client {
    type V = ClientModel;

    open spec fn view(&self) -> ClientModel {
        ClientModel {
            homeserver: self.homeserver,
            server_versions: texts_view(self.server_versions@),
        }
    }
}

impl Clone for Client {
    fn clone(&self) -> (r: Client)
        ensures
            r@ == self@,
    {
        Client {
            homeserver: self.homeserver.clone(),
            server_versions: copy_texts(&self.server_versions),
        }
    }
}

impl Client {
    /// Create a SlidingSyncBuilder tied to this client
    pub fn sliding_sync(&self) -> (r: SlidingSyncBuilder)
        ensures
            r@ == (SyncBuilderModel { client: Some(self@), ..fresh_sync_builder() }),
    {
        let mut builder = SlidingSyncBuilder::default();
        builder.client = Some(self.clone());
        builder
    }
}

/// The models of a list of views.
pub open spec fn views_view(s: Seq<SlidingSyncView>) -> Seq<ViewModel> {
    s.map_values(|v: SlidingSyncView| v@)
}

/// Those who watch the views of a list, view by view.
pub open spec fn watchers_of(s: Seq<SlidingSyncView>) -> Seq<Watchers> {
    s.map_values(|v: SlidingSyncView| v.watchers())
}

/// Those who watch a sliding sync: the list of the numbers of its views, and each view.
#[verifier::ext_equal]
pub struct SyncWatchers {
    pub list: Set<MutableSignalVec<usize>>,
    pub views: Seq<Watchers>,
}

/// The numbers of the first `n` views.
pub open spec fn first_numbers(n: nat) -> Seq<usize> {
    Seq::new(n, |i: int| i as usize)
}

/// Why a sliding sync could not be built.
#[derive(Clone, Copy, Debug)]
pub enum SlidingSyncBuilderError {
    /// A setting that has no default was not given.
    UninitializedField(&'static str),
}

/// Builds a [`SlidingSync`] from the settings that are given to it.
#[derive(Debug)]
pub struct SlidingSyncBuilder {
    homeserver: Option<Url>,
    client: Option<Client>,
    views: Option<Vec<SlidingSyncView>>,
}

impl View for SlidingSyncBuilder {
    type V = SyncBuilderModel;

    closed spec fn view(&self) -> SyncBuilderModel {
        SyncBuilderModel {
            homeserver: self.homeserver,
            client: match self.client {
                Some(client) => Some(client@),
                None => None,
            },
            views: match self.views {
                Some(views) => Some(views_view(views@)),
                None => None,
            },
        }
    }
}

impl Default for SlidingSyncBuilder {
    fn default() -> (r: SlidingSyncBuilder)
        ensures
            r@ == fresh_sync_builder(),
    {
        SlidingSyncBuilder { homeserver: None, client: None, views: None }
    }
}

impl SlidingSyncBuilder {
    /// Those who watch the views that were added.
    pub closed spec fn watchers(&self) -> Seq<Watchers> {
        match self.views {
            Some(views) => watchers_of(views@),
            None => Seq::empty(),
        }
    }

    /// The model of a builder is what was given to it, and who watches its views is who watches
    /// those that were added.
    proof fn models_what_was_given(&self)
        ensures
            self@.homeserver == self.homeserver,
            self@.client is Some <==> self.client is Some,
            self.client is Some ==> self@.client->0 == self.client->0@,
            self@.views is Some <==> self.views is Some,
            self.views is Some ==> self@.views->0 == views_view(self.views->0@),
            self.views is Some ==> self.watchers() == watchers_of(self.views->0@),
            self.views is None ==> self.watchers().len() == 0,
    {
    }

    /// A builder with the same settings, and with views of its own that hold the same
    pub fn copied(&self) -> (r: SlidingSyncBuilder)
        ensures
            r@ == self@,
    {
        SlidingSyncBuilder {
            homeserver: match &self.homeserver {
                Some(homeserver) => Some(homeserver.clone()),
                None => None,
            },
            client: match &self.client {
                Some(client) => Some(client.clone()),
                None => None,
            },
            views: match &self.views {
                Some(views) => Some(copy_views(views)),
                None => None,
            },
        }
    }

    /// Set the address to send the requests to
    pub fn homeserver(&mut self, homeserver: Url) -> (r: &mut SlidingSyncBuilder)
        ensures
            r@ == (SyncBuilderModel { homeserver: Some(homeserver), ..old(self)@ }),
            r.watchers() == old(self).watchers(),
            *final(self) == *final(r),
    {
        self.homeserver = Some(homeserver);
        self
    }

    /// Convenience function to add a full-sync view to the builder
    pub fn add_fullsync_view(&mut self) -> (r: &mut SlidingSyncBuilder)
        ensures
            r@ == with_view(old(self)@, built(full_sync_builder())),
            r.watchers().len() == old(self).watchers().len() + 1,
            r.watchers().drop_last() == old(self).watchers(),
            *final(self) == *final(r),
    {
        let view: SlidingSyncView = SlidingSyncViewBuilder::default_with_fullsync().build().unwrap();
        self.add_view(view)
    }

    /// Reset the views to None
    pub fn no_views(&mut self) -> (r: &mut SlidingSyncBuilder)
        ensures
            r@ == without_views(old(self)@),
            r.watchers().len() == 0,
            *final(self) == *final(r),
    {
        self.views = None;
        self
    }

    /// Add the given view to the list of views
    pub fn add_view(&mut self, v: SlidingSyncView) -> (r: &mut SlidingSyncBuilder)
        ensures
            r@ == with_view(old(self)@, v@),
            r.watchers() == old(self).watchers().push(v.watchers()),
            *final(self) == *final(r),
    {
        let mut views: Vec<SlidingSyncView> = match self.views.take() {
            Some(views) => views,
            None => Vec::new(),
        };
        let ghost before = views@;
        views.push(v);
        proof {
            assert(views_view(Seq::empty()) =~= Seq::empty());
            assert(views_view(views@) =~= views_view(before).push(v@));
            assert(watchers_of(Seq::empty()) =~= Seq::empty());
            assert(watchers_of(views@) =~= watchers_of(before).push(v.watchers()));
        }
        self.views = Some(views);
        self
    }

    /// The sliding sync with the settings that were given.
    ///
    /// There is no default for the address and for the client.
    pub fn build(self) -> (r: Result<SlidingSync, SlidingSyncBuilderError>)
        ensures
            r is Ok <==> self@.homeserver is Some && self@.client is Some,
            r matches Ok(sync) ==> sync@ == built_sync(self@) && sync.watchers().views
                == self.watchers(),
            r matches Err(SlidingSyncBuilderError::UninitializedField(name)) ==> name@ == (
            if self@.homeserver is None {
                "homeserver"@
            } else {
                "client"@
            }),
    {
        let SlidingSyncBuilder { homeserver, client, views } = self;
        if homeserver.is_none() {
            return Err(SlidingSyncBuilderError::UninitializedField("homeserver"));
        }
        let client: Client = match client {
            Some(client) => client,
            None => {
                return Err(SlidingSyncBuilderError::UninitializedField("client"));
            },
        };
        let views: Vec<SlidingSyncView> = match views {
            Some(views) => views,
            None => Vec::new(),
        };
        proof {
            assert(views_view(Seq::empty()) =~= Seq::empty());
            assert(watchers_of(Seq::empty()) =~= Seq::empty());
        }
        Ok(SlidingSync { homeserver, client, pos: pos_new(None), views: ViewList::new(views) })
    }
}

/// A list of views, and of their numbers, which can be watched.
#[derive(Debug)]
struct ViewList {
    /// The views, in a plain list: a list that can be watched hands its entries out as clones,
    /// and the clones of a view would share its cells.
    views: Vec<SlidingSyncView>,
    /// The numbers of the views, in a list that can be watched.
    numbers: MutableVec<usize>,
}

impl ViewList {
    #[verifier::type_invariant]
    spec fn lists_its_views(self) -> bool {
        numbers_in(self.numbers) == first_numbers(self.views@.len())
    }

    fn new(views: Vec<SlidingSyncView>) -> (r: ViewList)
        ensures
            r.views == views,
    {
        let mut numbers: Vec<usize> = Vec::new();
        while numbers.len() < views.len()
            invariant
                numbers@.len() <= views@.len(),
                numbers@ == first_numbers(numbers@.len()),
            decreases views@.len() - numbers@.len(),
        {
            let number: usize = numbers.len();
            numbers.push(number);
        }
        ViewList { views, numbers: numbers_new(numbers) }
    }

    fn get_mut(&mut self, number: usize) -> (r: &mut SlidingSyncView)
        requires
            number < old(self).views@.len(),
        ensures
            *r == old(self).views@[number as int],
            final(self).views@ == old(self).views@.update(number as int, *final(r)),
            final(self).numbers == old(self).numbers,
    {
        proof {
            use_type_invariant(&*self);
        }
        &mut self.views[number]
    }

    fn push(&mut self, v: SlidingSyncView)
        ensures
            final(self).views@ == old(self).views@.push(v),
            forall|s: MutableSignalVec<usize>| #[trigger]
                numbers_watched(s, final(self).numbers) == numbers_watched(s, old(self).numbers),
    {
        proof {
            use_type_invariant(&*self);
        }
        let mut taken: ViewList = ViewList::new(Vec::new());
        core::mem::swap(self, &mut taken);
        let ViewList { mut views, mut numbers } = taken;
        let number: usize = views.len();
        views.push(v);
        numbers_push(&mut numbers, number);
        assert(numbers_in(numbers) =~= first_numbers(views@.len()));
        *self = ViewList { views, numbers };
    }
}

/// Keeps views in sync with a server.
#[derive(Debug)]
pub struct SlidingSync {
    homeserver: Option<Url>,
    client: Client,
    pos: Mutable<Option<String>>,
    views: ViewList,
}

impl View for SlidingSync {
    type V = SyncModel;

    closed spec fn view(&self) -> SyncModel {
        SyncModel {
            homeserver: self.homeserver,
            client: self.client@,
            pos: pos_in(self.pos),
            views: views_view(self.views.views@),
        }
    }
}

impl SlidingSync {
    /// Those who watch the sliding sync.
    pub closed spec fn watchers(&self) -> SyncWatchers {
        SyncWatchers {
            list: Set::new(|s: MutableSignalVec<usize>| numbers_watched(s, self.views.numbers)),
            views: watchers_of(self.views.views@),
        }
    }

    /// The model of a sliding sync is what it holds, and who watches it is who watches its list and
    /// its views.
    proof fn models_what_is_held(&self, list: MutableSignalVec<usize>)
        ensures
            self@.homeserver == self.homeserver,
            self@.client == self.client@,
            self@.pos == pos_in(self.pos),
            self@.views == views_view(self.views.views@),
            self.watchers().views == watchers_of(self.views.views@),
            self.watchers().list.contains(list) <==> numbers_watched(list, self.views.numbers),
    {
    }

    /// Each view has its own watchers.
    pub proof fn watchers_by_view(&self)
        ensures
            self.watchers().views.len() == self@.views.len(),
    {
    }

    /// The views.
    pub fn views(&self) -> (r: &Vec<SlidingSyncView>)
        ensures
            views_view(r@) == self@.views,
            watchers_of(r@) == self.watchers().views,
    {
        &self.views.views
    }

    /// The list of the views, by their numbers, and its changes from here on.
    pub fn watch_views(&self) -> (r: MutableSignalVec<usize>)
        ensures
            self.watchers().list.contains(r),
            numbers_at_first(r) == first_numbers(self@.views.len()),
    {
        proof {
            use_type_invariant(&self.views);
        }
        numbers_watch(&self.views.numbers)
    }

    /// Add the given view to the list of views
    ///
    /// The next stream syncs it too; one that is running goes on with the views that it has.
    pub fn add_view(&mut self, v: SlidingSyncView)
        ensures
            final(self)@ == (SyncModel { views: old(self)@.views.push(v@), ..old(self)@ }),
            final(self).watchers() == (SyncWatchers {
                list: old(self).watchers().list,
                views: old(self).watchers().views.push(v.watchers()),
            }),
    {
        self.views.push(v);
    }

    /// The view with the given number, to change its ranges.
    pub fn view_mut(&mut self, number: usize) -> (r: &mut SlidingSyncView)
        requires
            number < old(self)@.views.len(),
        ensures
            r@ == old(self)@.views[number as int],
            final(self)@ == (SyncModel {
                views: old(self)@.views.update(number as int, final(r)@),
                ..old(self)@
            }),
            r.watchers() == old(self).watchers().views[number as int],
            final(self).watchers() == (SyncWatchers {
                views: old(self).watchers().views.update(number as int, final(r).watchers()),
                ..old(self).watchers()
            }),
    {
        self.views.get_mut(number)
    }

    /// The position that the next request goes on from, where there was a response.
    pub fn pos(&self) -> (r: Option<String>)
        ensures
            text_view(r) == self@.pos,
    {
        pos_get(&self.pos)
    }

    /// The address that the requests go to: the one that was given, else that of the client.
    pub fn target(&self) -> (r: Url)
        ensures
            r == target_of(self@),
    {
        match &self.homeserver {
            Some(homeserver) => homeserver.clone(),
            None => self.client.homeserver.clone(),
        }
    }

    /// The versions of the protocol that the client's server speaks.
    pub fn server_versions(&self) -> (r: Vec<String>)
        ensures
            texts_view(r@) == self@.client.server_versions,
    {
        copy_texts(&self.client.server_versions)
    }

    /// Generate a new SlidingSyncBuilder with the same inner settings and views
    /// but without the current state
    pub fn new_builder_copy(&self) -> (r: SlidingSyncBuilder)
        ensures
            r@ == sync_settings_of(self@),
    {
        let mut views: Vec<SlidingSyncView> = Vec::new();
        let mut i: usize = 0;
        while i < self.views.views.len()
            invariant
                i <= self.views.views@.len(),
                views@.len() == i,
                forall|j: int|
                    0 <= j < i ==> (#[trigger] views@[j])@ == built(settings_of(self.views.views@[j]@)),
            decreases self.views.views@.len() - i,
        {
            views.push(self.views.views[i].new_builder().build().unwrap());
            i = i + 1;
        }
        assert(views_view(views@) =~= self@.views.map_values(
            |v: ViewModel| built(settings_of(v)),
        ));
        let mut builder = SlidingSyncBuilder {
            homeserver: None,
            client: Some(self.client.clone()),
            views: Some(views),
        };
        if let Some(h) = &self.homeserver {
            builder.homeserver(h.clone());
        }
        builder
    }

    /// Whether a response to a request for the lists of the views with the given numbers speaks
    /// of those lists, and of places that they have or get with it.
    pub fn response_fits(&self, resp: &Response, remaining: &Vec<usize>) -> (r: bool)
        requires
            numbers_views(remaining@, self@.views.len()),
        ensures
            r == response_fits(self@, remaining@, resp@),
    {
        let ops: &Vec<Option<SyncOp>> = match &resp.ops {
            Some(ops) => ops,
            None => {
                return true;
            },
        };
        let ghost models = read_ops_view(ops@);
        if !all_on_lists(ops, remaining.len()) {
            return false;
        }
        let mut idx: usize = 0;
        while idx < remaining.len()
            invariant
                idx <= remaining@.len(),
                models == read_ops_view(ops@),
                resp@.ops == Some(models),
                ops_on_lists(models, remaining@.len()),
                numbers_views(remaining@, self@.views.len()),
                lists_fit(self@.views, remaining@, resp.counts@, models, 0) == lists_fit(
                    self@.views,
                    remaining@,
                    resp.counts@,
                    models,
                    idx as nat,
                ),
            decreases remaining@.len() - idx,
        {
            if idx >= resp.counts.len() {
                return false;
            }
            let count: u32 = match resp.counts[idx].to_u32() {
                Some(count) => count,
                None => {
                    return true;
                },
            };
            let view: &SlidingSyncView = &self.views.views[remaining[idx]];
            assert(view@ == self@.views[remaining@[idx as int] as int]);
            let on_list: Vec<&SyncOp> = ops_on_list(ops, idx);
            if !view.response_fits(count, &on_list) {
                return false;
            }
            proof {
                after_ops_outcome(grown(view@, count), ops_for(models, idx as nat), 0);
            }
            if !all_ops_sound(&on_list) {
                return true;
            }
            idx = idx + 1;
        }
        true
    }

    /// Takes in a response to a request for the lists of the views with the given numbers.
    ///
    /// The position moves on in any case. The operations go to the views by the list they are
    /// on; those that could not be read are passed over.
    pub fn handle_response(&mut self, resp: Response, remaining: &Vec<usize>) -> (r: Result<
        (),
        SyncError,
    >)
        requires
            numbers_views(remaining@, old(self)@.views.len()),
            response_fits(old(self)@, remaining@, resp@),
        ensures
            (final(self)@, r) == after_sync_response(old(self)@, remaining@, resp@),
            final(self).watchers() == old(self).watchers(),
    {
        let Response { pos, ops, counts } = resp;
        pos_replace(&mut self.pos, Some(pos));
        let ghost start = self@;
        if let Some(ops) = ops {
            let ghost models = read_ops_view(ops@);
            let mapped_ops: Vec<Vec<SyncOp>> = ops_by_list(ops, remaining.len());
            let mut idx: usize = 0;
            while idx < remaining.len()
                invariant
                    idx <= remaining@.len(),
                    mapped_ops@.len() == remaining@.len(),
                    forall|l: int|
                        0 <= l < mapped_ops@.len() ==> ops_view((#[trigger] mapped_ops@[l])@)
                            == ops_for(models, l as nat),
                    resp@.ops == Some(models),
                    resp@.counts == counts@,
                    start == (SyncModel { pos: Some(resp@.pos), ..old(self)@ }),
                    self@ == (SyncModel { views: self@.views, ..start }),
                    self.watchers() == old(self).watchers(),
                    numbers_views(remaining@, self@.views.len()),
                    lists_fit(self@.views, remaining@, counts@, models, idx as nat),
                    after_lists(self@.views, remaining@, counts@, models, idx as nat)
                        == after_lists(start.views, remaining@, counts@, models, 0),
                decreases remaining@.len() - idx,
            {
                let count: u32 = match counts[idx].to_u32() {
                    Some(count) => count,
                    None => {
                        return Err(SyncError::CountTooLarge);
                    },
                };
                let ghost before = self@;
                let number: usize = remaining[idx];
                let ghost held = self.views.views@;
                assert(before.views[number as int] == held[number as int]@);
                let result = self.views.get_mut(number).handle_response(count, &mapped_ops[idx]);
                proof {
                    assert(self@.views =~= before.views.update(
                        number as int,
                        self.views.views@[number as int]@,
                    ));
                    assert(watchers_of(self.views.views@) =~= watchers_of(held));
                }
                if result.is_err() {
                    return result;
                }
                proof {
                    lists_fit_after(
                        before.views,
                        self@.views,
                        remaining@,
                        counts@,
                        models,
                        idx as nat,
                        idx as nat + 1,
                    );
                }
                idx = idx + 1;
            }
        }
        Ok(())
    }
}

/// Views of their own that hold the same.
fn copy_views(views: &Vec<SlidingSyncView>) -> (r: Vec<SlidingSyncView>)
    ensures
        views_view(r@) == views_view(views@),
{
    let mut r: Vec<SlidingSyncView> = Vec::new();
    let mut i: usize = 0;
    while i < views.len()
        invariant
            i <= views@.len(),
            views_view(r@) == views_view(views@).take(i as int),
        decreases views@.len() - i,
    {
        let ghost before = r@;
        r.push(views[i].copied());
        assert(views_view(r@) =~= views_view(before).push(views@[i as int]@));
        assert(views_view(views@).take(i + 1) =~= views_view(views@).take(i as int).push(
            views_view(views@)[i as int],
        ));
        i = i + 1;
    }
    assert(views_view(views@).take(i as int) =~= views_view(views@));
    r
}

/// Whether the later lists of a response fit does not hang on the views of the earlier ones.
proof fn lists_fit_after(
    before: Seq<ViewModel>,
    after: Seq<ViewModel>,
    remaining: Seq<usize>,
    counts: Seq<UInt>,
    ops: Seq<Option<OpModel>>,
    changed: nat,
    from: nat,
)
    requires
        numbers_views(remaining, before.len()),
        changed < from,
        changed < remaining.len(),
        after.len() == before.len(),
        forall|j: int|
            0 <= j < before.len() && j != remaining[changed as int] ==> after[j] == before[j],
    ensures
        lists_fit(before, remaining, counts, ops, from) == lists_fit(
            after,
            remaining,
            counts,
            ops,
            from,
        ),
    decreases remaining.len() - from,
{
    if from < remaining.len() {
        lists_fit_after(before, after, remaining, counts, ops, changed, from + 1);
    }
}

/// Whether the operations that could be read are on the first `lists` lists.
fn all_on_lists(ops: &Vec<Option<SyncOp>>, lists: usize) -> (r: bool)
    ensures
        r == ops_on_lists(read_ops_view(ops@), lists as nat),
{
    let ghost models = read_ops_view(ops@);
    let mut i: usize = 0;
    while i < ops.len()
        invariant
            i <= ops@.len(),
            models == read_ops_view(ops@),
            forall|j: int|
                0 <= j < i ==> (#[trigger] models[j] matches Some(op) ==> op.list@ < lists
                    && op.list@ <= u32::MAX),
        decreases ops@.len() - i,
    {
        assert(models[i as int] == read_ops_view(ops@)[i as int]);
        if let Some(op) = &ops[i] {
            let list: u64 = op.list.value();
            if list > u32::MAX as u64 || list as u128 >= lists as u128 {
                assert(models[i as int] is Some);
                return false;
            }
        }
        i = i + 1;
    }
    true
}

/// The operations on one of the lists, of those that could be read, in order.
fn ops_on_list(ops: &Vec<Option<SyncOp>>, list: usize) -> (r: Vec<&SyncOp>)
    ensures
        op_refs_view(r@) == ops_for(read_ops_view(ops@), list as nat),
{
    let ghost models = read_ops_view(ops@);
    let mut r: Vec<&SyncOp> = Vec::new();
    let mut i: usize = 0;
    assert(models.take(0) =~= Seq::empty());
    assert(op_refs_view(r@) =~= Seq::empty());
    while i < ops.len()
        invariant
            i <= ops@.len(),
            models == read_ops_view(ops@),
            op_refs_view(r@) == ops_for(models.take(i as int), list as nat),
        decreases ops@.len() - i,
    {
        let ghost before = r@;
        let ghost upto = models.take(i + 1);
        assert(models[i as int] == read_ops_view(ops@)[i as int]);
        assert(upto.drop_last() =~= models.take(i as int));
        assert(upto.last() == models[i as int]);
        if let Some(op) = &ops[i] {
            if op.list.value() as u128 == list as u128 {
                r.push(op);
                assert(op_refs_view(r@) =~= op_refs_view(before) + seq![op@]);
            }
        }
        i = i + 1;
    }
    assert(models.take(i as int) =~= models);
    r
}

/// The operations list by list, without those that could not be read.
fn ops_by_list(ops: Vec<Option<SyncOp>>, lists: usize) -> (r: Vec<Vec<SyncOp>>)
    requires
        ops_on_lists(read_ops_view(ops@), lists as nat),
    ensures
        r@.len() == lists,
        forall|l: int|
            0 <= l < lists ==> ops_view((#[trigger] r@[l])@) == ops_for(
                read_ops_view(ops@),
                l as nat,
            ),
{
    let ghost models = read_ops_view(ops@);
    let mut mapped: Vec<Vec<SyncOp>> = Vec::new();
    let mut l: usize = 0;
    while l < lists
        invariant
            l <= lists,
            mapped@.len() == l,
            forall|j: int| 0 <= j < l ==> (#[trigger] mapped@[j])@ == Seq::<SyncOp>::empty(),
        decreases lists - l,
    {
        mapped.push(Vec::new());
        l = l + 1;
    }
    proof {
        assert(models.take(0) =~= Seq::empty());
        assert forall|j: int| 0 <= j < lists implies ops_view((#[trigger] mapped@[j])@) == ops_for(
            models.take(0),
            j as nat,
        ) by {
            assert(ops_view(Seq::empty()) =~= Seq::empty());
        }
    }
    for op in it: ops
        invariant
            it.seq() == ops@,
            models == read_ops_view(ops@),
            ops_on_lists(models, lists as nat),
            mapped@.len() == lists,
            forall|j: int|
                0 <= j < lists ==> ops_view((#[trigger] mapped@[j])@) == ops_for(
                    models.take(it.index() as int),
                    j as nat,
                ),
    {
        let ghost i = it.index() as int;
        let ghost before = mapped@;
        let ghost upto = models.take(i + 1);
        assert(models[i] == read_ops_view(ops@)[i]);
        assert(upto.drop_last() =~= models.take(i));
        assert(upto.last() == models[i]);
        if let Some(op) = op {
            let list: usize = op.list.to_u32().unwrap() as usize;
            mapped[list].push(op);
            assert(ops_view(mapped@[list as int]@) =~= ops_view(before[list as int]@) + seq![op@]);
        }
        assert forall|j: int| 0 <= j < lists implies ops_view((#[trigger] mapped@[j])@) == ops_for(
            upto,
            j as nat,
        ) by {
            assert(ops_view(before[j]@) == ops_for(models.take(i), j as nat));
        }
    }
    assert(models.take(ops@.len() as int) =~= models);
    mapped
}

} // verus!
