//! The pool of devices and who holds each of them.

use vstd::prelude::*;
use crate::compiler::DeviceConfig;

verus! {

/// One device of the pool: its profile, and the plot that holds it, if any.
#[derive(Debug)]
pub struct FPGA {
    pub config: DeviceConfig,
    pub owner: Option<(i32, i32)>,
}

impl FPGA {
    /// The plot that holds the device.
    pub fn get_owner(&self) -> (owner: Option<(i32, i32)>)
        ensures
            owner == self.owner,
    {
        self.owner
    }
}

/// The pool. A device has at most one owner at any time; `lock` and `free` are the only
/// operations that change an owner.
#[derive(Debug)]
pub struct FPGAScheduler {
    pub fpgas: Vec<FPGA>,
}

/// The owners of a pool, device by device.
pub open spec fn owners_of(fpgas: Seq<FPGA>) -> Seq<Option<(i32, i32)>> {
    Seq::new(fpgas.len(), |i: int| fpgas[i].owner)
}

/// The profiles of a pool, device by device.
pub open spec fn configs_of(fpgas: Seq<FPGA>) -> Seq<DeviceConfig> {
    Seq::new(fpgas.len(), |i: int| fpgas[i].config)
}

/// The first device, from `from` on, whose owner is `wanted`.
pub open spec fn first_owned(owners: Seq<Option<(i32, i32)>>, wanted: Option<(i32, i32)>, from: nat) -> Option<
    nat,
>
    decreases owners.len() - from,
{
    if from >= owners.len() {
        None
    } else if owners[from as int] == wanted {
        Some(from)
    } else {
        first_owned(owners, wanted, from + 1)
    }
}

pub proof fn lemma_first_owned(owners: Seq<Option<(i32, i32)>>, wanted: Option<(i32, i32)>, from: nat)
    ensures
        match first_owned(owners, wanted, from) {
            Some(i) => from <= i < owners.len() && owners[i as int] == wanted && forall|k: int|
                from <= k < i ==> owners[k] != wanted,
            None => forall|k: int| from <= k < owners.len() ==> owners[k] != wanted,
        },
    decreases owners.len() - from,
{
    if from < owners.len() && owners[from as int] != wanted {
        lemma_first_owned(owners, wanted, from + 1);
    }
}

/// The owners after `plot` asked for a device: the first free device is its own; without
/// a free device nothing changes.
pub open spec fn locked(owners: Seq<Option<(i32, i32)>>, plot: (i32, i32)) -> Seq<Option<(i32, i32)>> {
    match first_owned(owners, None, 0) {
        Some(i) => owners.update(i as int, Some(plot)),
        None => owners,
    }
}

/// The owners after `plot` gave its devices back: every device it held is free, and
/// every other device has the owner it had.
pub open spec fn freed(owners: Seq<Option<(i32, i32)>>, plot: (i32, i32)) -> Seq<Option<(i32, i32)>> {
    Seq::new(
        owners.len(),
        |i: int|
            if owners[i] == Some(plot) {
                None
            } else {
                owners[i]
            },
    )
}

/// Whether `plot` holds device `i`.
pub open spec fn owns(owners: Seq<Option<(i32, i32)>>, plot: (i32, i32), i: int) -> bool {
    0 <= i < owners.len() && owners[i] == Some(plot)
}

/// No two plots hold the same device.
pub proof fn lemma_one_owner(owners: Seq<Option<(i32, i32)>>, a: (i32, i32), b: (i32, i32), i: int)
    requires
        owns(owners, a, i),
        owns(owners, b, i),
    ensures
        a == b,
{
}

/// Locking never takes a device from its owner: whoever held a device still holds it,
/// and the one device that changes hands was free.
pub proof fn lemma_lock_exclusive(owners: Seq<Option<(i32, i32)>>, plot: (i32, i32))
    ensures
        locked(owners, plot).len() == owners.len(),
        forall|i: int|
            0 <= i < owners.len() && owners[i] is Some ==> #[trigger] locked(owners, plot)[i]
                == owners[i],
        forall|i: int|
            0 <= i < owners.len() && #[trigger] locked(owners, plot)[i] != owners[i] ==> owners[i] is None
                && locked(owners, plot)[i] == Some(plot),
{
    lemma_first_owned(owners, None, 0);
}

/// Freeing sets every device of the plot free and touches no device of another plot.
pub proof fn lemma_free_exclusive(owners: Seq<Option<(i32, i32)>>, plot: (i32, i32))
    ensures
        freed(owners, plot).len() == owners.len(),
        forall|i: int|
            0 <= i < owners.len() && owners[i] == Some(plot) ==> (#[trigger] freed(owners, plot)[i]) is None,
        forall|i: int|
            0 <= i < owners.len() && owners[i] != Some(plot) ==> #[trigger] freed(owners, plot)[i]
                == owners[i],
        forall|i: int| !owns(freed(owners, plot), plot, i),
{
}

/// After a device was locked and freed again by the same plot, a pool in which that plot
/// held nothing before is as it was.
pub proof fn lemma_lock_then_free(owners: Seq<Option<(i32, i32)>>, plot: (i32, i32))
    requires
        forall|i: int| 0 <= i < owners.len() ==> owners[i] != Some(plot),
    ensures
        freed(locked(owners, plot), plot) == owners,
{
    lemma_first_owned(owners, None, 0);
    assert(freed(locked(owners, plot), plot) =~= owners);
}

fn same_plot(a: (i32, i32), b: (i32, i32)) -> (same: bool)
    ensures
        same == (a == b),
{
    a.0 == b.0 && a.1 == b.1
}

impl FPGAScheduler {
    /// The owners of the devices.
    pub open spec fn owners(&self) -> Seq<Option<(i32, i32)>> {
        owners_of(self.fpgas@)
    }

    /// The profiles of the devices.
    pub open spec fn configs(&self) -> Seq<DeviceConfig> {
        configs_of(self.fpgas@)
    }

    /// A pool of free devices with the given profiles.
    pub fn from_configs(configs: Vec<DeviceConfig>) -> (pool: FPGAScheduler)
        ensures
            pool.configs() == configs@,
            pool.owners().len() == configs@.len(),
            forall|i: int| 0 <= i < configs@.len() ==> (#[trigger] pool.owners()[i]) is None,
    {
        let mut fpgas: Vec<FPGA> = Vec::new();
        let mut i: usize = 0;
        while i < configs.len()
            invariant
                i <= configs.len(),
                fpgas@.len() == i,
                forall|k: int| 0 <= k < i ==> (#[trigger] fpgas@[k]).config == configs@[k],
                forall|k: int| 0 <= k < i ==> (#[trigger] fpgas@[k]).owner is None,
            decreases configs.len() - i,
        {
            fpgas.push(FPGA { config: configs[i].clone(), owner: None });
            i += 1;
        }
        let pool = FPGAScheduler { fpgas };
        assert(pool.configs() =~= configs@);
        pool
    }

    /// The profile of the first device.
    pub fn get_config(&self) -> (config: DeviceConfig)
        requires
            self.fpgas@.len() > 0,
        ensures
            config == self.fpgas@[0].config,
    {
        self.fpgas[0].config.clone()
    }

    /// Gives the first free device to `plot`. Returns whether there was one. No device
    /// that has an owner changes hands.
    pub fn lock(&mut self, plot: (i32, i32)) -> (got: bool)
        ensures
            final(self).owners() == locked(old(self).owners(), plot),
            final(self).configs() == old(self).configs(),
            got == first_owned(old(self).owners(), None, 0) is Some,
            forall|i: int|
                0 <= i < old(self).owners().len() && old(self).owners()[i] is Some
                    ==> #[trigger] final(self).owners()[i] == old(self).owners()[i],
    {
        proof {
            lemma_lock_exclusive(self.owners(), plot);
        }
        let mut i: usize = 0;
        while i < self.fpgas.len()
            invariant
                *self == *old(self),
                i <= self.fpgas@.len(),
                first_owned(self.owners(), None, 0) == first_owned(self.owners(), None, i as nat),
            decreases self.fpgas.len() - i,
        {
            if self.fpgas[i].owner.is_none() {
                let config = self.fpgas[i].config.clone();
                self.fpgas.set(i, FPGA { config, owner: Some(plot) });
                proof {
                    assert(self.owners() =~= locked(old(self).owners(), plot));
                    assert(self.configs() =~= old(self).configs());
                }
                return true;
            }
            i += 1;
        }
        false
    }

    /// Takes every device that `plot` holds back into the pool. No device of another plot
    /// is touched.
    pub fn free(&mut self, plot: (i32, i32))
        ensures
            final(self).owners() == freed(old(self).owners(), plot),
            final(self).configs() == old(self).configs(),
            forall|i: int|
                0 <= i < old(self).owners().len() && old(self).owners()[i] == Some(plot) ==> (
                #[trigger] final(self).owners()[i]) is None,
            forall|i: int|
                0 <= i < old(self).owners().len() && old(self).owners()[i] != Some(plot)
                    ==> #[trigger] final(self).owners()[i] == old(self).owners()[i],
    {
        proof {
            lemma_free_exclusive(self.owners(), plot);
        }
        let mut i: usize = 0;
        while i < self.fpgas.len()
            invariant
                i <= self.fpgas@.len(),
                self.fpgas@.len() == old(self).fpgas@.len(),
                forall|k: int|
                    0 <= k < self.fpgas@.len() ==> (#[trigger] self.fpgas@[k]).config == old(
                        self,
                    ).fpgas@[k].config,
                forall|k: int|
                    0 <= k < i ==> (#[trigger] self.fpgas@[k]).owner == if old(self).fpgas@[k].owner
                        == Some(plot) {
                        None
                    } else {
                        old(self).fpgas@[k].owner
                    },
                forall|k: int|
                    i <= k < self.fpgas@.len() ==> (#[trigger] self.fpgas@[k]).owner == old(
                        self,
                    ).fpgas@[k].owner,
            decreases self.fpgas.len() - i,
        {
            let held = match self.fpgas[i].owner {
                Some(owner) => same_plot(owner, plot),
                None => false,
            };
            if held {
                let config = self.fpgas[i].config.clone();
                self.fpgas.set(i, FPGA { config, owner: None });
            }
            i += 1;
        }
        proof {
            assert(self.owners() =~= freed(old(self).owners(), plot));
            assert(self.configs() =~= old(self).configs());
        }
    }
}

} // verus!
