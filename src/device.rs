use vstd::prelude::*;

verus! {

/// Vendor id of the virtual device.
pub const DEVICE_VENDOR_ID: u16 = 0x00FF;

/// Product id of the virtual device.
pub const DEVICE_PRODUCT_ID: u16 = 0xBACC;

/// Version number of the virtual device.
pub const DEVICE_VERSION_ID: u16 = 0x0001;

/// HID usage page of the device's control collection.
pub const DEVICE_USAGE_PAGE: u16 = 0xFF00;

/// HID usage of the device's control collection.
pub const DEVICE_USAGE: u16 = 0x0001;

/// Why the device could not be found.
#[derive(Debug, Clone, Copy, PartialEq, Eq, Structural)]
pub enum DeviceError {
    /// The size of the device interface list could not be read.
    FailedToGetDeviceInterfaceListSize,
    /// The device interface list could not be read.
    FailedToGetDeviceInterfaceList,
    /// No device interface is present.
    EmptyDeviceInterfaceList,
    /// No device interface could be opened.
    NoValidHandle,
    /// Interfaces were opened, but none is the virtual device.
    NotFound,
}

/// What an opened HID device reports about itself.
#[derive(Debug, Clone, Copy, PartialEq, Eq, Structural)]
pub struct DeviceIdentity {
    pub vendor_id: u16,
    pub product_id: u16,
    pub version: u16,
    pub usage_page: u16,
    pub usage: u16,
}

/// The identity of the virtual device's control collection.
pub open spec fn expected_identity() -> DeviceIdentity {
    DeviceIdentity {
        vendor_id: DEVICE_VENDOR_ID,
        product_id: DEVICE_PRODUCT_ID,
        version: DEVICE_VERSION_ID,
        usage_page: DEVICE_USAGE_PAGE,
        usage: DEVICE_USAGE,
    }
}

/// Whether a device is the virtual device: all five identity values must be
/// the expected ones.
pub fn is_our_device(identity: &DeviceIdentity) -> (r: bool)
    ensures
        r == (*identity == expected_identity()),
{
    identity.vendor_id == DEVICE_VENDOR_ID && identity.product_id == DEVICE_PRODUCT_ID
        && identity.version == DEVICE_VERSION_ID && identity.usage_page == DEVICE_USAGE_PAGE
        && identity.usage == DEVICE_USAGE
}

/// A device differing from the virtual device in any one identity value is
/// rejected.
pub proof fn lemma_identity_needs_all_fields(identity: DeviceIdentity)
    requires
        identity.vendor_id != DEVICE_VENDOR_ID || identity.product_id != DEVICE_PRODUCT_ID
            || identity.version != DEVICE_VERSION_ID || identity.usage_page != DEVICE_USAGE_PAGE
            || identity.usage != DEVICE_USAGE,
    ensures
        identity != expected_identity(),
{
}

/// The interface list's length, from the answer to the size query. The
/// list holds a terminating null even when empty, so a size of at most one
/// means no interface.
pub fn interface_list_length(query_ok: bool, size: u32) -> (r: Result<usize, DeviceError>)
    ensures
        !query_ok ==> r == Err::<usize, DeviceError>(
            DeviceError::FailedToGetDeviceInterfaceListSize,
        ),
        query_ok && size <= 1 ==> r == Err::<usize, DeviceError>(
            DeviceError::EmptyDeviceInterfaceList,
        ),
        query_ok && size > 1 ==> r == Ok::<usize, DeviceError>(size as usize),
{
    if !query_ok {
        Err(DeviceError::FailedToGetDeviceInterfaceListSize)
    } else if size <= 1 {
        Err(DeviceError::EmptyDeviceInterfaceList)
    } else {
        Ok(size as usize)
    }
}

/// Whether a UTF-16 unit is a white-space character (Unicode White_Space;
/// all of them lie in the basic plane).
pub open spec fn is_space_unit(u: u16) -> bool {
    ||| 0x09 <= u <= 0x0D
    ||| u == 0x20
    ||| u == 0x85
    ||| u == 0xA0
    ||| u == 0x1680
    ||| 0x2000 <= u <= 0x200A
    ||| u == 0x2028
    ||| u == 0x2029
    ||| u == 0x202F
    ||| u == 0x205F
    ||| u == 0x3000
}

/// A piece that is empty or white space only.
pub open spec fn is_blank(p: Seq<u16>) -> bool {
    forall|i: int| 0 <= i < p.len() ==> is_space_unit(#[trigger] p[i])
}

/// The pieces of a unit list between null units, empty pieces included.
pub open spec fn split_at_nulls(s: Seq<u16>) -> Seq<Seq<u16>>
    decreases s.len(),
{
    if s.len() == 0 {
        seq![Seq::empty()]
    } else {
        let prev = split_at_nulls(s.drop_last());
        if s.last() == 0 {
            prev.push(Seq::empty())
        } else {
            prev.update(prev.len() - 1, prev.last().push(s.last()))
        }
    }
}

/// The pieces that are not blank, in order.
pub open spec fn non_blank(ps: Seq<Seq<u16>>) -> Seq<Seq<u16>>
    decreases ps.len(),
{
    if ps.len() == 0 {
        Seq::empty()
    } else if is_blank(ps.last()) {
        non_blank(ps.drop_last())
    } else {
        non_blank(ps.drop_last()).push(ps.last())
    }
}

/// The device paths in an interface list.
pub open spec fn device_paths(list: Seq<u16>) -> Seq<Seq<u16>> {
    non_blank(split_at_nulls(list))
}

/// The units of each path.
pub open spec fn paths_view(v: Seq<Vec<u16>>) -> Seq<Seq<u16>> {
    v.map_values(|p: Vec<u16>| p@)
}

proof fn lemma_split_at_nulls_nonempty(s: Seq<u16>)
    ensures
        split_at_nulls(s).len() >= 1,
    decreases s.len(),
{
    if s.len() > 0 {
        lemma_split_at_nulls_nonempty(s.drop_last());
    }
}

fn is_space(u: u16) -> (r: bool)
    ensures
        r == is_space_unit(u),
{
    (0x09 <= u && u <= 0x0D) || u == 0x20 || u == 0x85 || u == 0xA0 || u == 0x1680 || (0x2000
        <= u && u <= 0x200A) || u == 0x2028 || u == 0x2029 || u == 0x202F || u == 0x205F || u
        == 0x3000
}

/// The units of `list` from `start` up to `end`, and whether they are blank.
fn piece(list: &Vec<u16>, start: usize, end: usize) -> (r: (Vec<u16>, bool))
    requires
        start <= end <= list@.len(),
    ensures
        r.0@ == list@.subrange(start as int, end as int),
        r.1 == is_blank(list@.subrange(start as int, end as int)),
{
    let mut units: Vec<u16> = Vec::new();
    let mut blank = true;
    let mut i: usize = start;
    while i < end
        invariant
            start <= i <= end <= list@.len(),
            units@ == list@.subrange(start as int, i as int),
            blank == is_blank(units@),
        decreases end - i,
    {
        let ghost before = units@;
        units.push(list[i]);
        assert(units@ =~= list@.subrange(start as int, i + 1));
        proof {
            let u = list@[i as int];
            assert(units@.drop_last() =~= before);
            assert(units@[before.len() as int] == u);
            if is_blank(before) && is_space_unit(u) {
                assert forall|j: int| 0 <= j < units@.len() implies is_space_unit(
                    #[trigger] units@[j],
                ) by {
                    if j < before.len() {
                        assert(units@[j] == before[j]);
                    }
                }
            } else if !is_blank(before) {
                let j = choose|j: int| 0 <= j < before.len() && !is_space_unit(#[trigger] before[j]);
                assert(units@[j] == before[j]);
            }
        }
        blank = blank && is_space(list[i]);
        i = i + 1;
    }
    (units, blank)
}

/// Splits an interface list into device paths: the pieces between null
/// units, leaving out those that are empty or white space only.
pub fn split_interface_list(list: &Vec<u16>) -> (r: Vec<Vec<u16>>)
    ensures
        paths_view(r@) == device_paths(list@),
{
    let n = list.len();
    let mut paths: Vec<Vec<u16>> = Vec::new();
    let mut start: usize = 0;
    let mut i: usize = 0;
    let ghost mut done: Seq<Seq<u16>> = Seq::empty();
    assert(list@.take(0) =~= Seq::<u16>::empty());
    assert(list@.subrange(0, 0) =~= Seq::<u16>::empty());
    assert(split_at_nulls(Seq::<u16>::empty()) =~= done.push(Seq::empty()));
    assert(paths_view(paths@) =~= non_blank(done));
    while i < n
        invariant
            n == list@.len(),
            start <= i <= n,
            split_at_nulls(list@.take(i as int)) == done.push(
                list@.subrange(start as int, i as int),
            ),
            paths_view(paths@) == non_blank(done),
        decreases n - i,
    {
        let ghost prev = list@.take(i as int);
        assert(list@.take(i + 1).drop_last() =~= prev);
        if list[i] == 0 {
            let (units, blank) = piece(list, start, i);
            proof {
                assert(done.push(units@).drop_last() =~= done);
            }
            if !blank {
                let ghost before = paths@;
                paths.push(units);
                assert(paths@ =~= before.push(units));
                assert(paths_view(paths@) =~= paths_view(before).push(units@));
            }
            proof {
                done = done.push(list@.subrange(start as int, i as int));
                assert(list@.subrange(i + 1, i + 1) =~= Seq::<u16>::empty());
            }
            start = i + 1;
        } else {
            proof {
                lemma_split_at_nulls_nonempty(prev);
                assert(list@.subrange(start as int, i as int).push(list@[i as int])
                    =~= list@.subrange(start as int, i + 1));
                assert(done.push(list@.subrange(start as int, i as int)).update(
                    done.len() as int,
                    list@.subrange(start as int, i + 1),
                ) =~= done.push(list@.subrange(start as int, i + 1)));
            }
        }
        i = i + 1;
    }
    assert(list@.take(n as int) =~= list@);
    let (units, blank) = piece(list, start, n);
    assert(done.push(units@).drop_last() =~= done);
    if !blank {
        let ghost before = paths@;
        paths.push(units);
        assert(paths@ =~= before.push(units));
        assert(paths_view(paths@) =~= paths_view(before).push(units@));
    }
    paths
}

/// The device paths, from the answer to the list query.
pub fn interface_paths(query_ok: bool, list: &Vec<u16>) -> (r: Result<Vec<Vec<u16>>, DeviceError>)
    ensures
        !query_ok ==> r is Err && r->Err_0 == DeviceError::FailedToGetDeviceInterfaceList,
        query_ok ==> r is Ok && paths_view(r->Ok_0@) == device_paths(list@),
{
    if !query_ok {
        return Err(DeviceError::FailedToGetDeviceInterfaceList);
    }
    Ok(split_interface_list(list))
}

/// What happened when one device path was tried.
#[derive(Debug, Clone, Copy, PartialEq, Eq, Structural)]
pub enum ProbeOutcome {
    /// The path could not be opened.
    OpenFailed,
    /// The path was opened, but the device's identity could not be read.
    Unidentified,
    /// The path was opened and the device reported this identity.
    Identified(DeviceIdentity),
}

/// What to do with the handle of the path just tried.
#[derive(Debug, Clone, Copy, PartialEq, Eq, Structural)]
pub enum ScanAction {
    /// Nothing was opened: go on with the next path.
    Skip,
    /// The virtual device: keep the handle and stop.
    Keep,
    /// Another device: close the handle, then go on with the next path.
    Close,
}

pub open spec fn opened(o: ProbeOutcome) -> bool {
    !(o is OpenFailed)
}

pub open spec fn accepted(o: ProbeOutcome) -> bool {
    o matches ProbeOutcome::Identified(id) && id == expected_identity()
}

pub open spec fn action_for(o: ProbeOutcome) -> ScanAction {
    if accepted(o) {
        ScanAction::Keep
    } else if opened(o) {
        ScanAction::Close
    } else {
        ScanAction::Skip
    }
}

/// Result of trying paths in order: the index of the first that is the
/// virtual device; else `NotFound` if any path opened, `NoValidHandle` if
/// none did.
pub open spec fn scan_result(os: Seq<ProbeOutcome>) -> Result<int, DeviceError>
    decreases os.len(),
{
    if os.len() == 0 {
        Err(DeviceError::NoValidHandle)
    } else {
        match scan_result(os.drop_last()) {
            Ok(i) => Ok(i),
            Err(e) => if accepted(os.last()) {
                Ok(os.len() - 1)
            } else if opened(os.last()) {
                Err(DeviceError::NotFound)
            } else {
                Err(e)
            },
        }
    }
}

/// The scan over device paths, fed one outcome at a time. The first path
/// that is the virtual device wins; every other opened handle is closed
/// before the next path is tried.
pub struct DeviceScan {
    opened_any: bool,
    tried: Ghost<Seq<ProbeOutcome>>,
}

impl View for DeviceScan {
    type V = Seq<ProbeOutcome>;

    closed spec fn view(&self) -> Seq<ProbeOutcome> {
        self.tried@
    }
}

impl DeviceScan {
    #[verifier::type_invariant]
    spec fn inv(self) -> bool {
        scan_result(self.tried@) is Err ==> scan_result(self.tried@) == if self.opened_any {
            Err::<int, DeviceError>(DeviceError::NotFound)
        } else {
            Err::<int, DeviceError>(DeviceError::NoValidHandle)
        }
    }

    /// A scan that has tried no path.
    pub fn new() -> (r: DeviceScan)
        ensures
            r@ == Seq::<ProbeOutcome>::empty(),
    {
        DeviceScan { opened_any: false, tried: Ghost(Seq::empty()) }
    }

    /// Records the outcome of the next path and says what to do with its
    /// handle.
    pub fn record(&mut self, outcome: ProbeOutcome) -> (r: ScanAction)
        requires
            scan_result(old(self)@) is Err,
        ensures
            final(self)@ == old(self)@.push(outcome),
            r == action_for(outcome),
    {
        proof {
            use_type_invariant(&*self);
        }
        let ghost tried = self.tried@.push(outcome);
        assert(tried.drop_last() =~= self.tried@);
        let action = match outcome {
            ProbeOutcome::OpenFailed => ScanAction::Skip,
            ProbeOutcome::Unidentified => ScanAction::Close,
            ProbeOutcome::Identified(identity) => if is_our_device(&identity) {
                ScanAction::Keep
            } else {
                ScanAction::Close
            },
        };
        let opened_any = self.opened_any || !matches!(outcome, ProbeOutcome::OpenFailed);
        *self = DeviceScan { opened_any, tried: Ghost(tried) };
        action
    }

    /// The error to report once every path was tried and none was kept.
    pub fn finish(&self) -> (r: DeviceError)
        requires
            scan_result(self@) is Err,
        ensures
            scan_result(self@) == Err::<int, DeviceError>(r),
    {
        proof {
            use_type_invariant(self);
        }
        if self.opened_any {
            DeviceError::NotFound
        } else {
            DeviceError::NoValidHandle
        }
    }
}

} // verus!
