//! Capability grants: what a session, or one command of it, may reach.

use std::collections::BTreeSet;
use vstd::prelude::*;
use vstd::std_specs::btree::*;
use crate::host_path;
use crate::host_path::HostPath;
use crate::text;
use crate::text_map::TextMap;

verus! {

broadcast use group_btree_axioms;

/// What a filesystem grant allows below its root.
#[derive(Clone, Copy, Debug, PartialEq, Eq, Structural)]
pub enum FilesystemAccess {
    /// Reading only.
    Read,
    /// Reading, writing and deleting.
    ReadWrite,
}

/// Errors produced while building a grant.
#[derive(Clone, Copy, Debug, PartialEq, Eq, Structural)]
pub enum CapabilityError {
    /// A workspace root was not an absolute path.
    RelativeRoot,
    /// An environment variable name was empty or held `=` or a NUL.
    InvalidEnvironmentName,
    /// A resource limit was zero.
    ZeroLimit,
}

impl CapabilityError {
    /// The message of an error.
    pub open spec fn message_text(self) -> Seq<char> {
        match self {
            CapabilityError::RelativeRoot => "workspace root must be absolute"@,
            CapabilityError::InvalidEnvironmentName => "invalid environment variable name"@,
            CapabilityError::ZeroLimit => "resource limits must be positive"@,
        }
    }

    /// A message for people.
    pub fn message(&self) -> (r: String)
        ensures
            r@ == self.message_text(),
    {
        match self {
            CapabilityError::RelativeRoot => "workspace root must be absolute".to_owned(),
            CapabilityError::InvalidEnvironmentName => {
                "invalid environment variable name".to_owned()
            },
            CapabilityError::ZeroLimit => "resource limits must be positive".to_owned(),
        }
    }
}

/// Bounds on what one command may produce and how long it may run.
#[derive(Clone, Copy, Debug, PartialEq, Eq, Structural)]
pub struct ResourceLimits {
    max_output_bytes: usize,
    timeout_seconds: u64,
    fuel: Option<u64>,
}

impl ResourceLimits {
    /// The most output bytes.
    pub closed spec fn output_bound(self) -> usize {
        self.max_output_bytes
    }

    /// The most seconds.
    pub closed spec fn seconds_bound(self) -> u64 {
        self.timeout_seconds
    }

    /// The most instructions of a guest, where they are counted.
    pub closed spec fn fuel_bound(self) -> Option<u64> {
        self.fuel
    }

    /// Limits of so many output bytes and seconds.
    pub fn new(max_output_bytes: usize, timeout_seconds: u64) -> (r: Result<Self, CapabilityError>)
        ensures
            if max_output_bytes == 0 || timeout_seconds == 0 {
                r == Err::<Self, CapabilityError>(CapabilityError::ZeroLimit)
            } else {
                &&& r is Ok
                &&& r->Ok_0.output_bound() == max_output_bytes
                &&& r->Ok_0.seconds_bound() == timeout_seconds
                &&& r->Ok_0.fuel_bound() is None
            },
    {
        if max_output_bytes == 0 || timeout_seconds == 0 {
            return Err(CapabilityError::ZeroLimit);
        }
        Ok(ResourceLimits { max_output_bytes, timeout_seconds, fuel: None })
    }

    /// These limits with a bound on guest instructions.
    pub fn with_fuel(self, fuel: u64) -> (r: Result<Self, CapabilityError>)
        ensures
            if fuel == 0 {
                r == Err::<Self, CapabilityError>(CapabilityError::ZeroLimit)
            } else {
                &&& r is Ok
                &&& r->Ok_0.output_bound() == self.output_bound()
                &&& r->Ok_0.seconds_bound() == self.seconds_bound()
                &&& r->Ok_0.fuel_bound() == Some(fuel)
            },
    {
        if fuel == 0 {
            return Err(CapabilityError::ZeroLimit);
        }
        Ok(
            ResourceLimits {
                max_output_bytes: self.max_output_bytes,
                timeout_seconds: self.timeout_seconds,
                fuel: Some(fuel),
            },
        )
    }

    /// The most output bytes.
    pub fn max_output_bytes(&self) -> (r: usize)
        ensures
            r == self.output_bound(),
    {
        self.max_output_bytes
    }

    /// The most seconds.
    pub fn timeout_seconds(&self) -> (r: u64)
        ensures
            r == self.seconds_bound(),
    {
        self.timeout_seconds
    }

    /// The most instructions of a guest, where they are counted.
    pub fn fuel(&self) -> (r: Option<u64>)
        ensures
            r == self.fuel_bound(),
    {
        self.fuel
    }
}

/// Access to one directory tree.
#[derive(Debug, PartialEq, Eq)]
pub struct FilesystemGrant {
    root: HostPath,
    access: FilesystemAccess,
}

/// What a [`FilesystemGrant`] denotes.
pub struct TreeModel {
    /// The root of the tree.
    pub root: Seq<Seq<char>>,
    /// What may be done in it.
    pub access: FilesystemAccess,
}

impl View for FilesystemGrant {
    type V = TreeModel;

    closed spec fn view(&self) -> TreeModel {
        TreeModel { root: self.root@, access: self.access }
    }
}

impl FilesystemGrant {
    /// The root of the tree.
    pub fn root(&self) -> (r: &HostPath)
        ensures
            r@ == self@.root,
    {
        &self.root
    }

    /// What may be done in the tree.
    pub fn access(&self) -> (r: FilesystemAccess)
        ensures
            r == self@.access,
    {
        self.access
    }
}

/// What a [`CapabilityGrant`] denotes.
#[verifier::ext_equal]
pub struct GrantModel {
    /// The granted trees, in order.
    pub trees: Seq<TreeModel>,
    /// The names of the variables that may be read or set.
    pub environment: Set<Seq<char>>,
    /// The loopback TCP ports that may be used.
    pub ports: Set<u16>,
    /// Whether native processes may be started.
    pub native: bool,
    /// The bounds on each command.
    pub limits: ResourceLimits,
}

impl GrantModel {
    /// Whether a path lies lexically in a granted tree.
    pub open spec fn covers(self, path: Seq<Seq<char>>) -> bool {
        exists|i: int|
            0 <= i < self.trees.len() && host_path::lies_in(path, (#[trigger] self.trees[i]).root)
    }

    /// Whether an existing path lies in a granted tree once its links are
    /// followed; `actual` is where it leads, if it exists.
    pub open spec fn covers_real(self, actual: Option<Seq<Seq<char>>>) -> bool {
        actual is Some && self.covers(actual->0)
    }

    /// Whether writing to a path is granted: one tree that may be written holds
    /// it.
    pub open spec fn covers_write(self, path: Seq<Seq<char>>) -> bool {
        exists|i: int|
            {
                &&& 0 <= i < self.trees.len()
                &&& (#[trigger] self.trees[i]).access == FilesystemAccess::ReadWrite
                &&& host_path::lies_in(path, self.trees[i].root)
            }
    }

    /// Whether something may be put at a path: writing there is granted, and so
    /// it is where the thing would come to lie once links are followed.
    pub open spec fn covers_put(
        self,
        path: Seq<Seq<char>>,
        landing: Option<Seq<Seq<char>>>,
    ) -> bool {
        self.covers_write(path) && landing is Some && self.covers_write(landing->0)
    }
}

/// What is not granted is denied: without a granted tree no path is covered,
/// neither by its name nor by where it leads, and a path that only trees for
/// reading hold cannot be written, whatever other trees there are.
pub proof fn what_is_not_granted_is_denied(
    grant: GrantModel,
    path: Seq<Seq<char>>,
    actual: Option<Seq<Seq<char>>>,
)
    ensures
        grant.trees.len() == 0 ==> !grant.covers(path) && !grant.covers_real(actual),
        grant.covers_write(path) ==> grant.covers(path),
        (forall|i: int|
            0 <= i < grant.trees.len() && host_path::lies_in(
                path,
                (#[trigger] grant.trees[i]).root,
            ) ==> grant.trees[i].access == FilesystemAccess::Read) ==> !grant.covers_write(path)
            && !grant.covers_put(path, actual),
{
}

/// Everything a command may reach. Nothing is granted unless it is named here.
#[derive(Debug, PartialEq, Eq)]
pub struct CapabilityGrant {
    filesystem: Vec<FilesystemGrant>,
    environment: TextMap<()>,
    loopback_ports: BTreeSet<u16>,
    native_execution: bool,
    limits: ResourceLimits,
}

/// What a list of filesystem grants denotes.
pub open spec fn tree_models(list: Seq<FilesystemGrant>) -> Seq<TreeModel> {
    Seq::new(list.len(), |i: int| list[i]@)
}

impl View for CapabilityGrant {
    type V = GrantModel;

    closed spec fn view(&self) -> GrantModel {
        GrantModel {
            trees: tree_models(self.filesystem@),
            environment: self.environment@.dom(),
            ports: self.loopback_ports@,
            native: self.native_execution,
            limits: self.limits,
        }
    }
}

impl Clone for CapabilityGrant {
    fn clone(&self) -> (r: Self)
        ensures
            r@ == self@,
    {
        let mut filesystem: Vec<FilesystemGrant> = Vec::new();
        let mut i: usize = 0;
        while i < self.filesystem.len()
            invariant
                i <= self.filesystem.len(),
                filesystem.len() == i,
                forall|j: int| 0 <= j < i ==> (#[trigger] filesystem@[j])@ == self.filesystem@[j]@,
            decreases self.filesystem.len() - i,
        {
            let tree = &self.filesystem[i];
            filesystem.push(FilesystemGrant { root: tree.root.clone(), access: tree.access });
            i = i + 1;
        }
        assert(tree_models(filesystem@) =~= tree_models(self.filesystem@));
        CapabilityGrant {
            filesystem,
            environment: self.environment.clone(),
            loopback_ports: self.loopback_ports.clone(),
            native_execution: self.native_execution,
            limits: self.limits,
        }
    }
}

/// Whether a text can name an environment variable.
pub open spec fn is_variable_name(name: Seq<char>) -> bool {
    name.len() > 0 && !name.contains('=') && !name.contains('\0')
}

/// The limits of a grant that sets none: 1 MiB of output and thirty seconds.
fn default_limits() -> (r: ResourceLimits)
    ensures
        r.output_bound() == 1_048_576,
        r.seconds_bound() == 30,
        r.fuel_bound() is None,
{
    ResourceLimits { max_output_bytes: 1_048_576, timeout_seconds: 30, fuel: None }
}

impl CapabilityGrant {
    /// A grant of nothing.
    pub fn empty() -> (r: Self)
        ensures
            r@.trees.len() == 0,
            r@.environment == Set::<Seq<char>>::empty(),
            r@.ports == Set::<u16>::empty(),
            !r@.native,
            r@.limits.output_bound() == 1_048_576,
            r@.limits.seconds_bound() == 30,
            r@.limits.fuel_bound() is None,
    {
        let r = CapabilityGrant {
            filesystem: Vec::new(),
            environment: TextMap::new(),
            loopback_ports: BTreeSet::new(),
            native_execution: false,
            limits: default_limits(),
        };
        assert(r@.environment =~= Set::<Seq<char>>::empty());
        r
    }

    /// A grant of one directory tree and nothing else.
    pub fn workspace(root: &str, access: FilesystemAccess) -> (r: Result<Self, CapabilityError>)
        ensures
            match host_path::parsed(root@) {
                None => r == Err::<Self, CapabilityError>(CapabilityError::RelativeRoot),
                Some(path) => {
                    &&& r is Ok
                    &&& r->Ok_0@.trees == seq![TreeModel { root: path, access }]
                    &&& r->Ok_0@.environment == Set::<Seq<char>>::empty()
                    &&& r->Ok_0@.ports == Set::<u16>::empty()
                    &&& !r->Ok_0@.native
                    &&& r->Ok_0@.limits.output_bound() == 1_048_576
                    &&& r->Ok_0@.limits.seconds_bound() == 30
                    &&& r->Ok_0@.limits.fuel_bound() is None
                },
            },
    {
        match HostPath::parse(root) {
            None => Err(CapabilityError::RelativeRoot),
            Some(root) => {
                let mut r = CapabilityGrant::empty();
                r.filesystem.push(FilesystemGrant { root, access });
                assert(r@.trees =~= seq![TreeModel { root: root@, access }]);
                Ok(r)
            },
        }
    }

    /// This grant with one more environment variable.
    pub fn allow_environment(self, name: &str) -> (r: Result<Self, CapabilityError>)
        ensures
            if is_variable_name(name@) {
                r is Ok && r->Ok_0@ == (GrantModel {
                    environment: self@.environment.insert(name@),
                    ..self@
                })
            } else {
                r == Err::<Self, CapabilityError>(CapabilityError::InvalidEnvironmentName)
            },
    {
        let chars = text::chars_of(name);
        if chars.len() == 0 || text::holds_char(&chars, '=') || text::holds_char(&chars, '\0') {
            return Err(CapabilityError::InvalidEnvironmentName);
        }
        let mut environment = self.environment;
        environment.insert(name.to_owned(), ());
        assert(environment@.dom() =~= self.environment@.dom().insert(name@));
        Ok(
            CapabilityGrant {
                filesystem: self.filesystem,
                environment,
                loopback_ports: self.loopback_ports,
                native_execution: self.native_execution,
                limits: self.limits,
            },
        )
    }

    /// This grant with one more loopback port.
    pub fn allow_loopback_port(self, port: u16) -> (r: Self)
        ensures
            r@ == (GrantModel { ports: self@.ports.insert(port), ..self@ }),
    {
        let mut loopback_ports = self.loopback_ports;
        loopback_ports.insert(port);
        CapabilityGrant {
            filesystem: self.filesystem,
            environment: self.environment,
            loopback_ports,
            native_execution: self.native_execution,
            limits: self.limits,
        }
    }

    /// This grant with native execution.
    pub fn allow_native_execution(self) -> (r: Self)
        ensures
            r@ == (GrantModel { native: true, ..self@ }),
    {
        CapabilityGrant {
            filesystem: self.filesystem,
            environment: self.environment,
            loopback_ports: self.loopback_ports,
            native_execution: true,
            limits: self.limits,
        }
    }

    /// This grant with other limits.
    pub fn with_limits(self, limits: ResourceLimits) -> (r: Self)
        ensures
            r@ == (GrantModel { limits, ..self@ }),
    {
        CapabilityGrant {
            filesystem: self.filesystem,
            environment: self.environment,
            loopback_ports: self.loopback_ports,
            native_execution: self.native_execution,
            limits,
        }
    }

    /// The bounds on each command.
    pub fn limits(&self) -> (r: ResourceLimits)
        ensures
            r == self@.limits,
    {
        self.limits
    }

    /// The granted trees, in order.
    pub fn filesystem_grants(&self) -> (r: &Vec<FilesystemGrant>)
        ensures
            tree_models(r@) == self@.trees,
    {
        &self.filesystem
    }

    /// Whether a path lies lexically in a granted tree.
    pub fn allows_path(&self, path: &HostPath) -> (r: bool)
        ensures
            r == self@.covers(path@),
    {
        let mut i: usize = 0;
        while i < self.filesystem.len()
            invariant
                i <= self.filesystem.len(),
                forall|j: int|
                    0 <= j < i ==> !host_path::lies_in(path@, (#[trigger] self@.trees[j]).root),
            decreases self.filesystem.len() - i,
        {
            if path.starts_with(&self.filesystem[i].root) {
                assert(host_path::lies_in(path@, self@.trees[i as int].root));
                return true;
            }
            assert(self@.trees[i as int].root == self.filesystem@[i as int].root@);
            i = i + 1;
        }
        false
    }

    /// Whether an existing path lies in a granted tree once its links are
    /// followed; `actual` is where it leads, if it exists.
    pub fn allows_existing_path(&self, actual: &Option<HostPath>) -> (r: bool)
        ensures
            r == self@.covers_real(host_path::optional(*actual)),
    {
        match actual {
            Some(path) => self.allows_path(path),
            None => false,
        }
    }

    /// Whether writing to a path is granted: one tree that may be written holds
    /// it.
    pub fn allows_write(&self, path: &HostPath) -> (r: bool)
        ensures
            r == self@.covers_write(path@),
    {
        let mut i: usize = 0;
        while i < self.filesystem.len()
            invariant
                i <= self.filesystem.len(),
                forall|j: int|
                    0 <= j < i ==> (#[trigger] self@.trees[j]).access
                        != FilesystemAccess::ReadWrite || !host_path::lies_in(
                        path@,
                        self@.trees[j].root,
                    ),
            decreases self.filesystem.len() - i,
        {
            let tree = &self.filesystem[i];
            assert(self@.trees[i as int] == tree@);
            if tree.access == FilesystemAccess::ReadWrite && path.starts_with(&tree.root) {
                return true;
            }
            i = i + 1;
        }
        false
    }

    /// Whether something may be put at a path; `landing` is where it would come
    /// to lie once links are followed, if that can be told.
    pub fn allows_put(&self, path: &HostPath, landing: &Option<HostPath>) -> (r: bool)
        ensures
            r == self@.covers_put(path@, host_path::optional(*landing)),
    {
        match landing {
            Some(landing) => self.allows_write(path) && self.allows_write(landing),
            None => false,
        }
    }

    /// Whether a variable may be read or set.
    pub fn allows_environment(&self, name: &str) -> (r: bool)
        ensures
            r == self@.environment.contains(name@),
    {
        self.environment.get(name).is_some()
    }

    /// The names of the granted variables, in order.
    pub fn environment_names(&self) -> (r: &TextMap<()>)
        ensures
            r@.dom() == self@.environment,
    {
        &self.environment
    }

    /// The granted loopback ports.
    pub fn loopback_ports(&self) -> (r: &BTreeSet<u16>)
        ensures
            r@ == self@.ports,
    {
        &self.loopback_ports
    }

    /// Whether native processes may be started.
    pub fn allows_native_execution(&self) -> (r: bool)
        ensures
            r == self@.native,
    {
        self.native_execution
    }
}

} // verus!
