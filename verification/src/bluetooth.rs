//! A characteristic of a remote GATT service: what a page may ask of it, and
//! what it is told.
//!
//! Each operation is decided here in two steps. The first checks the
//! request and makes up the message for the Bluetooth thread; the second
//! takes the thread's reply. In between, whoever owns the channel sends the
//! message and waits.

use crate::text::text_eq;
use vstd::prelude::*;
use vstd::string::*;

verus! {

/// The greatest length of an attribute value, in bytes.
pub const MAXIMUM_ATTRIBUTE_LENGTH: usize = 512;

/// For which operations an attribute is blacklisted.
#[derive(Clone, Copy, Debug, PartialEq, Eq, Structural)]
pub enum Blacklist {
    All,
    Reads,
    Writes,
}

/// Whether an attribute that is blacklisted for `listed` is closed to the
/// operations that `asked` stands for: `All` closes it to everything, and
/// reading and writing are each closed by their own kind too.
pub open spec fn excludes(listed: Blacklist, asked: Blacklist) -> bool {
    listed == Blacklist::All || (listed == asked && asked != Blacklist::All)
}

/// One line of the blacklist: an attribute, and what it is closed to.
#[derive(Debug, PartialEq, Eq)]
pub struct BlacklistEntry {
    pub uuid: String,
    pub exclusion: Blacklist,
}

/// The mathematical value of a [`BlacklistEntry`].
pub struct BlacklistEntryView {
    pub uuid: Seq<char>,
    pub exclusion: Blacklist,
}

impl View for BlacklistEntry {
    type V = BlacklistEntryView;

    open spec fn view(&self) -> BlacklistEntryView {
        BlacklistEntryView { uuid: self.uuid@, exclusion: self.exclusion }
    }
}

/// The attributes that pages may not reach, or not fully.
#[derive(Debug, PartialEq, Eq)]
pub struct BluetoothBlacklist {
    pub entries: Vec<BlacklistEntry>,
}

impl View for BluetoothBlacklist {
    type V = Seq<BlacklistEntryView>;

    open spec fn view(&self) -> Seq<BlacklistEntryView> {
        self.entries@.map_values(|e: BlacklistEntry| e@)
    }
}

/// Whether the list closes the attribute `uuid` to the operations that `asked` stands for.
pub open spec fn is_blacklisted(list: Seq<BlacklistEntryView>, uuid: Seq<char>, asked: Blacklist) -> bool {
    exists|i: int|
        0 <= i < list.len() && (#[trigger] list[i]).uuid == uuid && excludes(
            list[i].exclusion,
            asked,
        )
}

impl BluetoothBlacklist {
    /// Whether the attribute `uuid` is closed to the operations that `exclude_type` stands for.
    pub fn uuid_is_blacklisted(&self, uuid: &str, exclude_type: Blacklist) -> (r: bool)
        ensures
            r == is_blacklisted(self@, uuid@, exclude_type),
    {
        let n: usize = self.entries.len();
        let mut i: usize = 0;
        while i < n
            invariant
                n == self.entries@.len(),
                n == self@.len(),
                i <= n,
                forall|j: int|
                    0 <= j < i ==> !((#[trigger] self@[j]).uuid == uuid@ && excludes(
                        self@[j].exclusion,
                        exclude_type,
                    )),
            decreases n - i,
        {
            let e = &self.entries[i];
            assert(e@ == self@[i as int]);
            let closed = match e.exclusion {
                Blacklist::All => true,
                Blacklist::Reads => match exclude_type {
                    Blacklist::Reads => true,
                    _ => false,
                },
                Blacklist::Writes => match exclude_type {
                    Blacklist::Writes => true,
                    _ => false,
                },
            };
            if closed && text_eq(e.uuid.as_str(), uuid) {
                return true;
            }
            i += 1;
        }
        false
    }
}

/// What the Bluetooth thread reports when it cannot do what it was asked.
#[derive(Debug, PartialEq, Eq)]
pub enum BluetoothError {
    Type(String),
    Network,
    NotFound,
    NotSupported,
    Security,
}

/// What a page is told when an operation fails.
#[derive(Debug, PartialEq, Eq)]
pub enum Error {
    Type(String),
    Network,
    NotFound,
    NotSupported,
    Security,
    InvalidModification,
}

/// The mathematical value of an [`Error`] or a [`BluetoothError`].
pub enum ErrorView {
    Type(Seq<char>),
    Network,
    NotFound,
    NotSupported,
    Security,
    InvalidModification,
}

impl View for Error {
    type V = ErrorView;

    open spec fn view(&self) -> ErrorView {
        match *self {
            Error::Type(m) => ErrorView::Type(m@),
            Error::Network => ErrorView::Network,
            Error::NotFound => ErrorView::NotFound,
            Error::NotSupported => ErrorView::NotSupported,
            Error::Security => ErrorView::Security,
            Error::InvalidModification => ErrorView::InvalidModification,
        }
    }
}

impl View for BluetoothError {
    type V = ErrorView;

    open spec fn view(&self) -> ErrorView {
        match *self {
            BluetoothError::Type(m) => ErrorView::Type(m@),
            BluetoothError::Network => ErrorView::Network,
            BluetoothError::NotFound => ErrorView::NotFound,
            BluetoothError::NotSupported => ErrorView::NotSupported,
            BluetoothError::Security => ErrorView::Security,
        }
    }
}

impl Error {
    /// The error that a page is told for an error of the Bluetooth thread: the same one.
    pub fn from_bluetooth(error: BluetoothError) -> (r: Error)
        ensures
            r@ == error@,
    {
        match error {
            BluetoothError::Type(message) => Error::Type(message),
            BluetoothError::Network => Error::Network,
            BluetoothError::NotFound => Error::NotFound,
            BluetoothError::NotSupported => Error::NotSupported,
            BluetoothError::Security => Error::Security,
        }
    }
}

/// What may be done with a characteristic.
#[derive(Clone, Copy, Debug, PartialEq, Eq, Structural)]
pub struct BluetoothCharacteristicProperties {
    pub broadcast: bool,
    pub read: bool,
    pub write_without_response: bool,
    pub write: bool,
    pub notify: bool,
    pub indicate: bool,
    pub authenticated_signed_writes: bool,
    pub reliable_write: bool,
    pub writable_auxiliaries: bool,
}

impl BluetoothCharacteristicProperties {
    /// Whether the characteristic can be written to in some way.
    pub open spec fn writable(self) -> bool {
        self.write || self.write_without_response || self.authenticated_signed_writes
    }
}

/// A message to the Bluetooth thread.
#[derive(Debug, PartialEq, Eq)]
pub enum BluetoothMethodMsg {
    /// The descriptor with the given UUID of the characteristic with the given instance.
    GetDescriptor(String, String),
    /// The descriptors of the characteristic, all of them or those with the given UUID.
    GetDescriptors(String, Option<String>),
    ReadValue(String),
    WriteValue(String, Vec<u8>),
}

/// The mathematical value of a [`BluetoothMethodMsg`].
pub enum MethodMsgView {
    GetDescriptor(Seq<char>, Seq<char>),
    GetDescriptors(Seq<char>, Option<Seq<char>>),
    ReadValue(Seq<char>),
    WriteValue(Seq<char>, Seq<u8>),
}

impl View for BluetoothMethodMsg {
    type V = MethodMsgView;

    open spec fn view(&self) -> MethodMsgView {
        match *self {
            BluetoothMethodMsg::GetDescriptor(id, uuid) => MethodMsgView::GetDescriptor(id@, uuid@),
            BluetoothMethodMsg::GetDescriptors(id, uuid) => MethodMsgView::GetDescriptors(
                id@,
                match uuid {
                    Some(u) => Some(u@),
                    None => None,
                },
            ),
            BluetoothMethodMsg::ReadValue(id) => MethodMsgView::ReadValue(id@),
            BluetoothMethodMsg::WriteValue(id, value) => MethodMsgView::WriteValue(id@, value@),
        }
    }
}

/// A descriptor, as the Bluetooth thread reports it and as a page gets it.
#[derive(Debug, PartialEq, Eq)]
pub struct BluetoothRemoteGATTDescriptor {
    pub uuid: String,
    pub instance_id: String,
}

/// The mathematical value of a [`BluetoothRemoteGATTDescriptor`].
pub struct DescriptorView {
    pub uuid: Seq<char>,
    pub instance_id: Seq<char>,
}

impl View for BluetoothRemoteGATTDescriptor {
    type V = DescriptorView;

    open spec fn view(&self) -> DescriptorView {
        DescriptorView { uuid: self.uuid@, instance_id: self.instance_id@ }
    }
}

/// The views of a run of descriptors.
pub open spec fn descriptor_views(v: Seq<BluetoothRemoteGATTDescriptor>) -> Seq<DescriptorView> {
    v.map_values(|d: BluetoothRemoteGATTDescriptor| d@)
}

/// A characteristic of a remote GATT service.
#[derive(Debug, PartialEq, Eq)]
pub struct BluetoothRemoteGATTCharacteristic {
    uuid: String,
    properties: BluetoothCharacteristicProperties,
    value: Option<Vec<u8>>,
    instance_id: String,
}

/// The mathematical value of a [`BluetoothRemoteGATTCharacteristic`].
pub struct CharacteristicView {
    pub uuid: Seq<char>,
    pub properties: BluetoothCharacteristicProperties,
    /// The value that was last read.
    pub value: Option<Seq<u8>>,
    pub instance_id: Seq<char>,
}

impl View for BluetoothRemoteGATTCharacteristic {
    type V = CharacteristicView;

    closed spec fn view(&self) -> CharacteristicView {
        CharacteristicView {
            uuid: self.uuid@,
            properties: self.properties,
            value: match self.value {
                Some(v) => Some(v@),
                None => None,
            },
            instance_id: self.instance_id@,
        }
    }
}

/// What comes of asking for a descriptor: refused where the descriptor is
/// blacklisted, else the message to send.
pub open spec fn descriptor_request(
    c: CharacteristicView,
    list: Seq<BlacklistEntryView>,
    uuid: Seq<char>,
) -> Result<MethodMsgView, ErrorView> {
    if is_blacklisted(list, uuid, Blacklist::All) {
        Err(ErrorView::Security)
    } else {
        Ok(MethodMsgView::GetDescriptor(c.instance_id, uuid))
    }
}

/// What comes of asking for the descriptors.
pub open spec fn descriptors_request(
    c: CharacteristicView,
    list: Seq<BlacklistEntryView>,
    uuid: Option<Seq<char>>,
) -> Result<MethodMsgView, ErrorView> {
    if uuid is Some && is_blacklisted(list, uuid->0, Blacklist::All) {
        Err(ErrorView::Security)
    } else {
        Ok(MethodMsgView::GetDescriptors(c.instance_id, uuid))
    }
}

/// What comes of asking to read the value. The checks are made in this
/// order: the blacklist, the connection, the properties.
pub open spec fn read_request(
    c: CharacteristicView,
    list: Seq<BlacklistEntryView>,
    connected: bool,
) -> Result<MethodMsgView, ErrorView> {
    if is_blacklisted(list, c.uuid, Blacklist::Reads) {
        Err(ErrorView::Security)
    } else if !connected {
        Err(ErrorView::Network)
    } else if !c.properties.read {
        Err(ErrorView::NotSupported)
    } else {
        Ok(MethodMsgView::ReadValue(c.instance_id))
    }
}

/// What comes of asking to write a value. The checks are made in this
/// order: the blacklist, the length, the connection, the properties.
pub open spec fn write_request(
    c: CharacteristicView,
    list: Seq<BlacklistEntryView>,
    connected: bool,
    value: Seq<u8>,
) -> Result<MethodMsgView, ErrorView> {
    if is_blacklisted(list, c.uuid, Blacklist::Writes) {
        Err(ErrorView::Security)
    } else if value.len() > MAXIMUM_ATTRIBUTE_LENGTH {
        Err(ErrorView::InvalidModification)
    } else if !connected {
        Err(ErrorView::Network)
    } else if !c.properties.writable() {
        Err(ErrorView::NotSupported)
    } else {
        Ok(MethodMsgView::WriteValue(c.instance_id, value))
    }
}

/// The view of the outcome of a request.
pub open spec fn request_view(r: Result<BluetoothMethodMsg, Error>) -> Result<
    MethodMsgView,
    ErrorView,
> {
    match r {
        Ok(m) => Ok(m@),
        Err(e) => Err(e@),
    }
}

impl BluetoothRemoteGATTCharacteristic {
    /// A characteristic with no value read yet.
    pub fn new_inherited(
        uuid: String,
        properties: BluetoothCharacteristicProperties,
        instance_id: String,
    ) -> (r: BluetoothRemoteGATTCharacteristic)
        ensures
            r@ == (CharacteristicView {
                uuid: uuid@,
                properties,
                value: None,
                instance_id: instance_id@,
            }),
    {
        BluetoothRemoteGATTCharacteristic { uuid, properties, value: None, instance_id }
    }

    /// A characteristic with no value read yet.
    pub fn new(
        uuid: String,
        properties: BluetoothCharacteristicProperties,
        instance_id: String,
    ) -> (r: BluetoothRemoteGATTCharacteristic)
        ensures
            r@ == (CharacteristicView {
                uuid: uuid@,
                properties,
                value: None,
                instance_id: instance_id@,
            }),
    {
        BluetoothRemoteGATTCharacteristic::new_inherited(uuid, properties, instance_id)
    }

    /// The instance of the characteristic, as the Bluetooth thread knows it.
    pub fn get_instance_id(&self) -> (r: String)
        ensures
            r@ == self@.instance_id,
    {
        self.instance_id.clone()
    }

    /// What may be done with the characteristic.
    pub fn properties(&self) -> (r: BluetoothCharacteristicProperties)
        ensures
            r == self@.properties,
    {
        self.properties
    }

    /// The UUID of the characteristic.
    pub fn uuid(&self) -> (r: String)
        ensures
            r@ == self@.uuid,
    {
        self.uuid.clone()
    }

    /// The value that was last read.
    pub fn get_value(&self) -> (r: Option<Vec<u8>>)
        ensures
            match r {
                Some(v) => self@.value == Some(v@),
                None => self@.value is None,
            },
    {
        match &self.value {
            Some(v) => Some(v.clone()),
            None => None,
        }
    }

    /// Asks for the descriptor with the given UUID.
    pub fn get_descriptor(&self, blacklist: &BluetoothBlacklist, uuid: String) -> (r: Result<
        BluetoothMethodMsg,
        Error,
    >)
        ensures
            request_view(r) == descriptor_request(self@, blacklist@, uuid@),
    {
        if blacklist.uuid_is_blacklisted(uuid.as_str(), Blacklist::All) {
            return Err(Error::Security);
        }
        Ok(BluetoothMethodMsg::GetDescriptor(self.get_instance_id(), uuid))
    }

    /// Takes the reply to a request for a descriptor.
    pub fn descriptor_reply(
        &self,
        reply: Result<BluetoothRemoteGATTDescriptor, BluetoothError>,
    ) -> (r: Result<BluetoothRemoteGATTDescriptor, Error>)
        ensures
            match reply {
                Ok(d) => r == Ok::<BluetoothRemoteGATTDescriptor, Error>(d),
                Err(e) => r matches Err(x) && x@ == e@,
            },
    {
        match reply {
            Ok(descriptor) => Ok(descriptor),
            Err(error) => Err(Error::from_bluetooth(error)),
        }
    }

    /// Asks for the descriptors, all of them or those with the given UUID.
    pub fn get_descriptors(&self, blacklist: &BluetoothBlacklist, uuid: Option<String>) -> (r:
        Result<BluetoothMethodMsg, Error>)
        ensures
            request_view(r) == descriptors_request(
                self@,
                blacklist@,
                match uuid {
                    Some(u) => Some(u@),
                    None => None,
                },
            ),
    {
        match &uuid {
            Some(u) => {
                if blacklist.uuid_is_blacklisted(u.as_str(), Blacklist::All) {
                    return Err(Error::Security);
                }
            },
            None => {},
        }
        Ok(BluetoothMethodMsg::GetDescriptors(self.get_instance_id(), uuid))
    }

    /// Takes the reply to a request for the descriptors.
    pub fn descriptors_reply(
        &self,
        reply: Result<Vec<BluetoothRemoteGATTDescriptor>, BluetoothError>,
    ) -> (r: Result<Vec<BluetoothRemoteGATTDescriptor>, Error>)
        ensures
            match reply {
                Ok(d) => r == Ok::<Vec<BluetoothRemoteGATTDescriptor>, Error>(d),
                Err(e) => r matches Err(x) && x@ == e@,
            },
    {
        match reply {
            Ok(descriptors) => Ok(descriptors),
            Err(error) => Err(Error::from_bluetooth(error)),
        }
    }

    /// Asks to read the value, where the device is connected or not as `connected` says.
    pub fn read_value(&self, blacklist: &BluetoothBlacklist, connected: bool) -> (r: Result<
        BluetoothMethodMsg,
        Error,
    >)
        ensures
            request_view(r) == read_request(self@, blacklist@, connected),
    {
        if blacklist.uuid_is_blacklisted(self.uuid.as_str(), Blacklist::Reads) {
            return Err(Error::Security);
        }
        if !connected {
            return Err(Error::Network);
        }
        if !self.properties.read {
            return Err(Error::NotSupported);
        }
        Ok(BluetoothMethodMsg::ReadValue(self.get_instance_id()))
    }

    /// Takes the reply to a request to read the value: a value that came is
    /// kept as the value last read, and handed on; an error leaves the
    /// characteristic as it was.
    pub fn read_reply(&mut self, reply: Result<Vec<u8>, BluetoothError>) -> (r: Result<
        Vec<u8>,
        Error,
    >)
        ensures
            match reply {
                Ok(v) => {
                    &&& r matches Ok(x) && x@ == v@
                    &&& final(self)@ == (CharacteristicView { value: Some(v@), ..old(self)@ })
                },
                Err(e) => {
                    &&& r matches Err(x) && x@ == e@
                    &&& final(self)@ == old(self)@
                },
            },
    {
        match reply {
            Ok(val) => {
                self.value = Some(val.clone());
                Ok(val)
            },
            Err(error) => Err(Error::from_bluetooth(error)),
        }
    }

    /// Asks to write `value`, where the device is connected or not as `connected` says.
    pub fn write_value(
        &self,
        blacklist: &BluetoothBlacklist,
        connected: bool,
        value: Vec<u8>,
    ) -> (r: Result<BluetoothMethodMsg, Error>)
        ensures
            request_view(r) == write_request(self@, blacklist@, connected, value@),
    {
        if blacklist.uuid_is_blacklisted(self.uuid.as_str(), Blacklist::Writes) {
            return Err(Error::Security);
        }
        if value.len() > MAXIMUM_ATTRIBUTE_LENGTH {
            return Err(Error::InvalidModification);
        }
        if !connected {
            return Err(Error::Network);
        }
        if !(self.properties.write || self.properties.write_without_response
            || self.properties.authenticated_signed_writes) {
            return Err(Error::NotSupported);
        }
        Ok(BluetoothMethodMsg::WriteValue(self.get_instance_id(), value))
    }

    /// Takes the reply to a request to write a value.
    pub fn write_reply(&self, reply: Result<bool, BluetoothError>) -> (r: Result<(), Error>)
        ensures
            match reply {
                Ok(_) => r is Ok,
                Err(e) => r matches Err(x) && x@ == e@,
            },
    {
        match reply {
            Ok(_) => Ok(()),
            Err(error) => Err(Error::from_bluetooth(error)),
        }
    }
}

} // verus!
