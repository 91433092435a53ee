use vstd::prelude::*;
use crate::id_map::IdMap;
use crate::registry::{running_in, LaunchedApps};
use crate::types::{AppConfig, AppConfigId, AppConfigView, AppError};

verus! {

/// Store contents: each configuration under its id.
pub type ConfigsView = Map<Seq<char>, AppConfigView>;

/// The collection that a list of records stands for: records keyed by id,
/// a later record replacing an earlier one with the same id.
pub open spec fn configs_from(s: Seq<AppConfigView>) -> ConfigsView
    decreases s.len(),
{
    if s.len() == 0 {
        Map::empty()
    } else {
        configs_from(s.drop_last()).insert(s.last().id, s.last())
    }
}

/// `s` lists the collection `m`: each configuration exactly once.
pub open spec fn is_listing(s: Seq<AppConfigView>, m: ConfigsView) -> bool {
    &&& s.len() == m.len()
    &&& forall|i: int| 0 <= i < s.len() ==> #[trigger] m.contains_key(s[i].id) && m[s[i].id] == s[i]
    &&& forall|k: Seq<char>| #[trigger] m.contains_key(k) ==> exists|i: int| 0 <= i < s.len() && s[i].id == k
    &&& forall|i: int, j: int| 0 <= i < j < s.len() ==> s[i].id != s[j].id
}

pub open spec fn views_of(s: Seq<AppConfig>) -> Seq<AppConfigView> {
    s.map_values(|c: AppConfig| c@)
}

/// What reading the backing store gave.
pub enum StoreRead {
    /// There is no store yet.
    Missing,
    /// The store holds these records, in this order.
    Parsed(Vec<AppConfig>),
    /// The store is not a list of configurations; the parser said this.
    Malformed(String),
    /// The store exists but could not be read, for this reason.
    Unreadable(String),
}

/// The collection a store read stands for: a missing store is empty.
pub open spec fn store_view(read: StoreRead) -> Result<ConfigsView, AppError> {
    match read {
        StoreRead::Missing => Ok(Map::empty()),
        StoreRead::Parsed(list) => Ok(configs_from(views_of(list@))),
        StoreRead::Malformed(msg) => Err(AppError::ParseError(msg)),
        StoreRead::Unreadable(msg) => Err(AppError::ReadError(msg)),
    }
}

/// A collection of launch configurations with pairwise distinct ids.
pub struct AppConfigs {
    map: IdMap<AppConfig>,
}

impl View for AppConfigs {
    type V = ConfigsView;

    closed spec fn view(&self) -> ConfigsView {
        self.map@.map_values(|c: AppConfig| c@)
    }
}

pub open spec fn configs_result_view(r: Result<AppConfigs, AppError>) -> Result<ConfigsView, AppError> {
    match r {
        Ok(c) => Ok(c@),
        Err(e) => Err(e),
    }
}

impl AppConfigs {
    pub closed spec fn wf(&self) -> bool {
        &&& self.map.wf()
        &&& forall|k: Seq<char>| #[trigger] self.map@.contains_key(k) ==> self.map@[k].id@ == k
    }

    pub fn new() -> (r: Self)
        ensures
            r.wf(),
            r@ == ConfigsView::empty(),
    {
        let r = AppConfigs { map: IdMap::new() };
        assert(r@ =~= ConfigsView::empty());
        r
    }

    pub fn len(&self) -> (r: usize)
        requires
            self.wf(),
        ensures
            r == self@.len(),
    {
        assert(self@.dom() =~= self.map@.dom());
        self.map.len()
    }

    pub fn get(&self, id: &AppConfigId) -> (r: Option<&AppConfig>)
        requires
            self.wf(),
        ensures
            match r {
                Some(c) => self@.contains_key(id@) && c@ == self@[id@],
                None => !self@.contains_key(id@),
            },
    {
        self.map.get(&id.0)
    }

    pub fn contains_key(&self, id: &AppConfigId) -> (r: bool)
        requires
            self.wf(),
        ensures
            r == self@.contains_key(id@),
    {
        self.map.contains_key(&id.0)
    }

    /// Adds `config`, replacing the configuration with the same id if any.
    pub fn upsert(&mut self, config: AppConfig)
        requires
            old(self).wf(),
        ensures
            final(self).wf(),
            final(self)@ == old(self)@.insert(config@.id, config@),
    {
        let ghost cv = config@;
        let key = config.id.0.clone();
        self.map.insert(key, config);
        assert(self@ =~= old(self)@.insert(cv.id, cv));
    }

    /// Removes the configuration `id`; `NotFound`, with nothing changed,
    /// when there is none.
    pub fn remove(&mut self, id: &AppConfigId) -> (r: Result<(), AppError>)
        requires
            old(self).wf(),
        ensures
            final(self).wf(),
            r is Err <==> !old(self)@.contains_key(id@),
            match r {
                Ok(()) => final(self)@ == old(self)@.remove(id@),
                Err(e) => e == AppError::NotFound && final(self)@ == old(self)@,
            },
    {
        match self.map.remove(&id.0) {
            Some(_) => {
                assert(self@ =~= old(self)@.remove(id@));
                Ok(())
            },
            None => Err(AppError::NotFound),
        }
    }

    /// The collection of `list`: a later record replaces an earlier one with
    /// the same id.
    pub fn from_list(list: &Vec<AppConfig>) -> (r: Self)
        ensures
            r.wf(),
            r@ == configs_from(views_of(list@)),
    {
        let mut r = AppConfigs::new();
        let mut i: usize = 0;
        while i < list.len()
            invariant
                i <= list@.len(),
                r.wf(),
                r@ == configs_from(views_of(list@).take(i as int)),
            decreases list@.len() - i,
        {
            let c = list[i].clone();
            r.upsert(c);
            assert(views_of(list@).take(i as int + 1).drop_last() =~= views_of(list@).take(i as int));
            i = i + 1;
        }
        assert(views_of(list@).take(i as int) =~= views_of(list@));
        r
    }

    /// Every configuration, each once, in no particular order.
    pub fn to_vec(&self) -> (r: Vec<AppConfig>)
        requires
            self.wf(),
        ensures
            is_listing(views_of(r@), self@),
    {
        let keys = self.map.keys();
        let vals = self.map.values();
        proof {
            self.map.lemma_positions();
        }
        let mut r: Vec<AppConfig> = Vec::new();
        let mut i: usize = 0;
        while i < vals.len()
            invariant
                self.wf(),
                i <= vals@.len(),
                vals@.len() == self.map.size(),
                forall|j: int| 0 <= j < vals@.len() ==> #[trigger] vals@[j] == self.map@[self.map.key_at(j)],
                r@.len() == i,
                forall|j: int| 0 <= j < i ==> #[trigger] r@[j]@ == vals@[j]@,
            decreases vals@.len() - i,
        {
            let c = vals[i].clone();
            r.push(c);
            i = i + 1;
        }
        proof {
            self.map.lemma_positions();
            let s = views_of(r@);
            assert(self@.dom() =~= self.map@.dom());
            assert forall|j: int| 0 <= j < s.len() implies #[trigger] self@.contains_key(s[j].id)
                && self@[s[j].id] == s[j] by {
                assert(self.map@.contains_key(self.map.key_at(j)));
            }
            assert forall|k: Seq<char>| #[trigger] self@.contains_key(k) implies exists|j: int|
                0 <= j < s.len() && s[j].id == k by {
                assert(self.map@.contains_key(k));
                let j = choose|j: int| 0 <= j < self.map.size() && self.map.key_at(j) == k;
                assert(self.map@.contains_key(self.map.key_at(j)));
                assert(s[j].id == k);
            }
            assert forall|a: int, b: int| 0 <= a < b < s.len() implies s[a].id != s[b].id by {
                assert(self.map@.contains_key(self.map.key_at(a)));
                assert(self.map@.contains_key(self.map.key_at(b)));
            }
        }
        r
    }
}

/// Outcome of removing configuration `id`: refused with `AppRunning` while
/// the application runs, then any failure of reading the store, then
/// `NotFound` for an unknown id.
pub open spec fn removal(running: bool, stored: Result<ConfigsView, AppError>, id: Seq<char>) -> Result<
    ConfigsView,
    AppError,
> {
    if running {
        Err(AppError::AppRunning)
    } else {
        match stored {
            Err(e) => Err(e),
            Ok(m) => if m.contains_key(id) {
                Ok(m.remove(id))
            } else {
                Err(AppError::NotFound)
            },
        }
    }
}

/// The collection that a store read stands for: empty for a missing store,
/// `ParseError` for malformed contents, `ReadError` when it cannot be read.
pub fn read_configs(read: StoreRead) -> (r: Result<AppConfigs, AppError>)
    ensures
        configs_result_view(r) == store_view(read),
        match r {
            Ok(c) => c.wf(),
            Err(_) => true,
        },
{
    match read {
        StoreRead::Missing => Ok(AppConfigs::new()),
        StoreRead::Parsed(list) => Ok(AppConfigs::from_list(&list)),
        StoreRead::Malformed(msg) => Err(AppError::ParseError(msg)),
        StoreRead::Unreadable(msg) => Err(AppError::ReadError(msg)),
    }
}

/// Every stored configuration, each once: none for a missing store,
/// `ParseError` for malformed contents.
pub fn get_app_configs(read: StoreRead) -> (r: Result<Vec<AppConfig>, AppError>)
    ensures
        match store_view(read) {
            Ok(m) => r is Ok && is_listing(views_of(r->Ok_0@), m),
            Err(e) => r == Err::<Vec<AppConfig>, AppError>(e),
        },
{
    match read_configs(read) {
        Ok(configs) => Ok(configs.to_vec()),
        Err(e) => Err(e),
    }
}

/// The store after adding `config`, replacing the one with the same id: the
/// collection to write back.
pub fn upsert_config_in_store(config: AppConfig, read: StoreRead) -> (r: Result<AppConfigs, AppError>)
    ensures
        match store_view(read) {
            Ok(m) => configs_result_view(r) == Ok::<ConfigsView, AppError>(m.insert(config@.id, config@)),
            Err(e) => configs_result_view(r) == Err::<ConfigsView, AppError>(e),
        },
        match r {
            Ok(c) => c.wf(),
            Err(_) => true,
        },
{
    match read_configs(read) {
        Ok(configs) => {
            let mut configs = configs;
            configs.upsert(config);
            Ok(configs)
        },
        Err(e) => Err(e),
    }
}

/// The store after removing `config_id`: refused with `AppRunning` while the
/// registry shows that application running, and with `NotFound` for an
/// unknown id. On any error nothing is to be written back. The running check
/// sees the registry as it is during the call: a launch that starts after it
/// but before the store is written is not noticed.
pub fn remove_config_from_store<P>(config_id: &AppConfigId, read: StoreRead, apps_state: &LaunchedApps<P>) -> (r:
    Result<AppConfigs, AppError>)
    requires
        apps_state.wf(),
    ensures
        configs_result_view(r) == removal(running_in(apps_state@, config_id@), store_view(read), config_id@),
        match r {
            Ok(c) => c.wf(),
            Err(_) => true,
        },
{
    if apps_state.is_running(config_id) {
        return Err(AppError::AppRunning);
    }
    match read_configs(read) {
        Ok(configs) => {
            let mut configs = configs;
            match configs.remove(config_id) {
                Ok(()) => Ok(configs),
                Err(e) => Err(e),
            }
        },
        Err(e) => Err(e),
    }
}

/// After an upsert of `c`, a listing of the store holds exactly one record
/// with `c`'s id, and that record is `c`.
pub proof fn lemma_upsert_then_list(m: ConfigsView, c: AppConfigView, listed: Seq<AppConfigView>)
    requires
        is_listing(listed, m.insert(c.id, c)),
    ensures
        exists|i: int| 0 <= i < listed.len() && listed[i] == c,
        forall|i: int| 0 <= i < listed.len() && listed[i].id == c.id ==> listed[i] == c,
        forall|i: int, j: int|
            0 <= i < listed.len() && 0 <= j < listed.len() && listed[i].id == c.id && listed[j].id == c.id
                ==> i == j,
{
    let after = m.insert(c.id, c);
    assert(after.contains_key(c.id));
    let i = choose|i: int| 0 <= i < listed.len() && listed[i].id == c.id;
    assert(after.contains_key(listed[i].id));
    assert forall|a: int, b: int|
        0 <= a < listed.len() && 0 <= b < listed.len() && listed[a].id == c.id && listed[b].id == c.id implies a
        == b by {
        if a < b {
            assert(listed[a].id != listed[b].id);
        } else if b < a {
            assert(listed[b].id != listed[a].id);
        }
    }
}

/// A second upsert with the same id replaces the first record: the store is
/// as if only the second had happened, and no record is added.
pub proof fn lemma_upsert_replaces(m: ConfigsView, c: AppConfigView, d: AppConfigView)
    requires
        m.dom().finite(),
        c.id == d.id,
    ensures
        m.insert(c.id, c).insert(d.id, d) == m.insert(d.id, d),
        m.insert(c.id, c).insert(d.id, d).len() == m.insert(c.id, c).len(),
{
    assert(m.insert(c.id, c).insert(d.id, d) =~= m.insert(d.id, d));
    assert(m.insert(c.id, c).dom().insert(d.id) =~= m.insert(c.id, c).dom());
}

/// Removing the configuration of a running application fails with
/// `AppRunning` and leaves the store as it was; for an application that is
/// not running, a known id is removed and no longer in the result, and an
/// unknown id fails with `NotFound`.
pub proof fn lemma_remove_config(running: bool, m: ConfigsView, id: Seq<char>)
    ensures
        running ==> removal(running, Ok(m), id) == Err::<ConfigsView, AppError>(AppError::AppRunning),
        !running && m.contains_key(id) ==> removal(running, Ok(m), id) is Ok && !removal(
            running,
            Ok(m),
            id,
        )->Ok_0.contains_key(id) && removal(running, Ok(m), id)->Ok_0 == m.remove(id),
        !running && !m.contains_key(id) ==> removal(running, Ok(m), id) == Err::<ConfigsView, AppError>(
            AppError::NotFound,
        ),
{
}

/// A missing store lists no configuration, and malformed contents are a
/// parse error.
pub proof fn lemma_store_reads(listed: Seq<AppConfigView>, msg: String)
    requires
        is_listing(listed, ConfigsView::empty()),
    ensures
        store_view(StoreRead::Missing) == Ok::<ConfigsView, AppError>(ConfigsView::empty()),
        listed.len() == 0,
        store_view(StoreRead::Malformed(msg)) == Err::<ConfigsView, AppError>(AppError::ParseError(msg)),
{
}

} // verus!
