//! A virtual machine.
use std::sync::Arc;

use vstd::prelude::*;

use crate::access::{virtual_access, VirtualAccess};
use crate::assembly::{Phase, VmBuilder};
use crate::config::AxVMConfig;
use crate::error::VmError;
use crate::memory::{
    contents, gather, joined, law_read_gives_back_write, part, scatter, zeros,
};
use crate::run::{RunAction, VCpuRun};

verus! {

/// A virtual machine. `V` is a vCPU, `D` the emulated devices, `E` describes one
/// emulated device.
pub struct AxVM<V, D, E> {
    pub id: usize,
    pub config: AxVMConfig<E>,
    pub vcpu_list: Vec<Arc<V>>,
    pub devices: D,
    /// The root of the page table that translates guest physical addresses.
    pub ept_root: usize,
    pub running: bool,
}

/// What `boot` makes of the running flag, and what it returns.
pub open spec fn booted<X>(running: bool, hardware_support: bool) -> (bool, Result<(), VmError<X>>) {
    if !hardware_support {
        (running, Err(VmError::Unsupported))
    } else if running {
        (running, Err(VmError::BadState))
    } else {
        (true, Ok(()))
    }
}

/// A VM boots at most once: after a successful boot it runs, every further boot
/// fails, and it keeps running.
pub proof fn law_boots_once<X>(running: bool, support: bool, later: bool)
    requires
        booted::<X>(running, support).1 is Ok,
    ensures
        !running,
        booted::<X>(running, support).0,
        booted::<X>(true, later).1 is Err,
        booted::<X>(true, later).0,
{
}

/// A VM boots exactly where the hardware can run it and it is not running yet; what
/// stands in the way of a boot is reported, the hardware first, and a VM that runs goes
/// on running.
pub proof fn law_boot_succeeds_where_it_can<X>(running: bool, support: bool)
    ensures
        booted::<X>(running, support).1 is Ok <==> support && !running,
        booted::<X>(running, support).1 == Err::<(), VmError<X>>(VmError::Unsupported) <==> !support,
        booted::<X>(running, support).1 == Err::<(), VmError<X>>(VmError::BadState) <==> support
            && running,
        booted::<X>(running, support).0 <==> running || support,
{
}

/// A read of guest memory gives back what was written to it: after a write of
/// `data` to segments that held `before`, a read of `size` bytes through the same
/// segments, which now hold `after`, gives the first `size` bytes of `data`.
pub proof fn law_guest_read_gives_back_write(
    data: Seq<u8>,
    before: Seq<Seq<u8>>,
    after: Seq<Seq<u8>>,
    size: usize,
)
    requires
        joined(before).len() == size,
        size <= data.len(),
        after.len() == before.len(),
        forall|i: int| 0 <= i < after.len() ==> #[trigger] after[i] == part(data, before, i),
    ensures
        joined(after) + zeros((size - joined(after).len()) as nat) == data.take(size as int),
{
    law_read_gives_back_write(data, before, after);
    assert(joined(after) + zeros(0) =~= data.take(size as int));
}

/// Another pointer to what `shared` points to, by `Arc::clone` of the standard
/// library.
///
/// Trusted: it points to the same value, which is not copied.
#[verifier::external_body]
fn share<V>(shared: &Arc<V>) -> (r: Arc<V>)
    ensures
        r == *shared,
{
    Arc::clone(shared)
}

impl<V, D, E> AxVM<V, D, E> {
    /// There is a vCPU for each one that is configured, and the VM has the
    /// configured id.
    pub open spec fn wf(self) -> bool {
        &&& self.vcpu_list@.len() == self.config.vcpus@.len()
        &&& self.id == self.config.id
    }

    /// The VM that `builder` has completed. It is not running.
    pub fn new(builder: VmBuilder<V, D, E>) -> (vm: Self)
        requires
            builder.wf(),
            builder.phase is Finished,
        ensures
            vm.wf(),
            vm.id == builder.config.id,
            vm.config == builder.config,
            vm.vcpu_list == builder.vcpu_list,
            builder.devices == Some(vm.devices),
            vm.ept_root == builder.ept_root,
            !vm.running,
    {
        AxVM {
            id: builder.config.id,
            config: builder.config,
            vcpu_list: builder.vcpu_list,
            devices: builder.devices.unwrap(),
            ept_root: builder.ept_root,
            running: false,
        }
    }

    /// The id of the VM.
    pub fn id(&self) -> (r: usize)
        ensures
            r == self.id,
    {
        self.id
    }

    /// The vCPU at `vcpu_id` of the list, shared with it; `None` if there is none.
    pub fn vcpu(&self, vcpu_id: usize) -> (r: Option<Arc<V>>)
        ensures
            r == (if vcpu_id < self.vcpu_list@.len() {
                Some(self.vcpu_list@[vcpu_id as int])
            } else {
                None
            }),
    {
        if vcpu_id < self.vcpu_list.len() {
            Some(share(&self.vcpu_list[vcpu_id]))
        } else {
            None
        }
    }

    /// The number of vCPUs.
    pub fn vcpu_num(&self) -> (r: usize)
        ensures
            r == self.vcpu_list@.len(),
    {
        self.vcpu_list.len()
    }

    /// The vCPUs.
    pub fn vcpu_list(&self) -> (r: &[Arc<V>])
        ensures
            r@ == self.vcpu_list@,
    {
        self.vcpu_list.as_slice()
    }

    /// The root of the page table that translates guest physical addresses.
    pub fn ept_root(&self) -> (r: usize)
        ensures
            r == self.ept_root,
    {
        self.ept_root
    }

    /// Whether the VM is running.
    pub fn running(&self) -> (r: bool)
        ensures
            r == self.running,
    {
        self.running
    }

    /// The emulated devices.
    pub fn get_devices(&self) -> (r: &D)
        ensures
            *r == self.devices,
    {
        &self.devices
    }

    /// Boots the VM: marks it as running. Fails where the hardware cannot run VMs,
    /// and on a VM that is running already.
    pub fn boot<X>(&mut self, hardware_support: bool) -> (r: Result<(), VmError<X>>)
        ensures
            (final(self).running, r) == booted::<X>(old(self).running, hardware_support),
            r is Ok <==> hardware_support && !old(self).running,
            r == Err::<(), VmError<X>>(VmError::Unsupported) <==> !hardware_support,
            r == Err::<(), VmError<X>>(VmError::BadState) <==> hardware_support && old(self).running,
            final(self).running <==> old(self).running || r is Ok,
            *final(self) == (AxVM { running: final(self).running, ..*old(self) }),
    {
        if !hardware_support {
            Err(VmError::Unsupported)
        } else if self.running {
            Err(VmError::BadState)
        } else {
            self.running = true;
            Ok(())
        }
    }

    /// Starts a run of the vCPU at `vcpu_id`: gives its first action.
    pub fn run_vcpu<R, X>(&self, vcpu_id: usize) -> (r: Result<
        (VCpuRun<R>, RunAction<R, X>),
        VmError<X>,
    >)
        ensures
            r == (if vcpu_id < self.vcpu_list@.len() {
                Ok::<(VCpuRun<R>, RunAction<R, X>), VmError<X>>(
                    crate::run::after_all::<R, X>(Seq::empty()),
                )
            } else {
                Err(VmError::InvalidInput)
            }),
            r matches Ok((run, action)) ==> run is Binding && action is Bind,
    {
        if vcpu_id < self.vcpu_list.len() {
            Ok((VCpuRun::Binding, RunAction::Bind))
        } else {
            Err(VmError::InvalidInput)
        }
    }

    /// The `size` bytes of a guest range, from the segments that the range was
    /// translated to; `None` if it could not be translated.
    pub fn read_guest_memory(&self, translated: &Option<Vec<&mut [u8]>>, size: usize) -> (r: Option<
        Vec<u8>,
    >)
        requires
            translated matches Some(segments) ==> joined(contents(segments@)).len() <= size,
        ensures
            match r {
                Some(data) => *translated matches Some(segments) && data@ == joined(
                    contents(segments@),
                ) + zeros((size - joined(contents(segments@)).len()) as nat),
                None => *translated is None,
            },
    {
        match translated {
            Some(segments) => Some(gather(segments, size)),
            None => None,
        }
    }

    /// Writes `data` to a guest range through the segments that the range was
    /// translated to; `None` if it could not be translated.
    pub fn write_guest_memory(&self, translated: Option<Vec<&mut [u8]>>, data: &[u8]) -> (r: Option<
        (),
    >)
        requires
            translated matches Some(segments) ==> joined(contents(segments@)).len() <= data@.len(),
        ensures
            r is Some <==> translated is Some,
            translated matches Some(segments) ==> forall|i: int|
                0 <= i < segments@.len() ==> final(#[trigger] segments@[i])@ == part(
                    data@,
                    contents(segments@),
                    i,
                ),
    {
        match translated {
            Some(segments) => {
                scatter(data, segments);
                Some(())
            },
            None => None,
        }
    }

    /// Starts a read of `len` bytes of guest virtual memory at `gva`, on the vCPU
    /// at `vcpu_id`, whose page table is at `root`; 0 stands for none.
    pub fn read_guest_virtual_memory(
        &self,
        vcpu_id: usize,
        root: usize,
        gva: usize,
        len: usize,
    ) -> (r: VirtualAccess)
        ensures
            r == virtual_access(self.vcpu_list@.len(), vcpu_id, root, gva, len),
            vcpu_id >= self.vcpu_list@.len() ==> r is NoVCpu,
            vcpu_id < self.vcpu_list@.len() && root == 0 ==> r == (VirtualAccess::Direct {
                gpa: gva,
                len,
            }),
            vcpu_id < self.vcpu_list@.len() && root != 0 ==> r == (VirtualAccess::Walk {
                root,
                gva,
                len,
            }),
    {
        if vcpu_id >= self.vcpu_list.len() {
            VirtualAccess::NoVCpu
        } else if root == 0 {
            VirtualAccess::Direct { gpa: gva, len }
        } else {
            VirtualAccess::Walk { root, gva, len }
        }
    }

    /// Starts a write of `data` to guest virtual memory at `gva`, as for a read.
    pub fn write_guest_virtual_memory(
        &self,
        vcpu_id: usize,
        root: usize,
        gva: usize,
        data: &[u8],
    ) -> (r: VirtualAccess)
        ensures
            r == virtual_access(
                self.vcpu_list@.len(),
                vcpu_id,
                root,
                gva,
                data@.len() as usize,
            ),
            vcpu_id >= self.vcpu_list@.len() ==> r is NoVCpu,
            vcpu_id < self.vcpu_list@.len() && root == 0 ==> r == (VirtualAccess::Direct {
                gpa: gva,
                len: data@.len() as usize,
            }),
            vcpu_id < self.vcpu_list@.len() && root != 0 ==> r == (VirtualAccess::Walk {
                root,
                gva,
                len: data@.len() as usize,
            }),
    {
        self.read_guest_virtual_memory(vcpu_id, root, gva, data.len())
    }
}

} // verus!
