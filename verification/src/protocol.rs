//! The messages that clients, the manager and TAs exchange.

#![allow(non_camel_case_types)]

use vstd::prelude::*;

verus! {

/// What a TA asks of the manager.
#[derive(Debug)]
pub enum TARequest {
    Register { uuid: String },
}

/// What a client asks of a TA.
pub enum TEE_Request {
    OpenSession { uuid: String, connection_method: u32, params: TEE_Parameters },
    CloseSession { session_id: u32 },
    InvokeCommand { session_id: u32, cmd_id: u32, params: TEE_Parameters },
    RequestCancellation { session_id: u32 },
}

/// What a TA answers to a client.
pub enum TEE_Response {
    OpenSession { session_id: u32, result: u32 },
    CloseSession { result: u32 },
    InvokeCommand { params: TEE_Parameters, result: u32 },
    RequestCancellation { result: u32 },
}

/// The four parameters of a command.
pub struct TEE_Parameters(
    pub TEE_Parameter,
    pub TEE_Parameter,
    pub TEE_Parameter,
    pub TEE_Parameter,
);

/// A parameter with its type.
pub struct TEE_Parameter {
    pub param: TEE_Param,
    pub param_type: TEE_ParamType,
}

/// What a parameter holds: a buffer, or a pair of numbers.
pub struct TEE_Param {
    pub data: Vec<u8>,
    pub value: TEE_Value,
}

/// A pair of numbers.
pub struct TEE_Value {
    pub a: u32,
    pub b: u32,
}

/// Which kind a parameter is of, and which way it goes.
#[derive(Debug, PartialEq, Eq, Clone, Copy, Structural)]
pub enum TEE_ParamType {
    NoParam,
    ValueInput,
    ValueOutput,
    ValueInout,
    MemrefInput,
    MemrefOutput,
    MemrefInout,
}

impl TEE_ParamType {
    /// The number that stands for the type on the wire.
    pub open spec fn spec_code(self) -> u32 {
        match self {
            TEE_ParamType::NoParam => 0,
            TEE_ParamType::ValueInput => 1,
            TEE_ParamType::ValueOutput => 2,
            TEE_ParamType::ValueInout => 3,
            TEE_ParamType::MemrefInput => 5,
            TEE_ParamType::MemrefOutput => 6,
            TEE_ParamType::MemrefInout => 7,
        }
    }

    /// The type that a number stands for. Numbers without a meaning stand for
    /// `NoParam`.
    pub open spec fn of_code(code: u32) -> TEE_ParamType {
        match code {
            1 => TEE_ParamType::ValueInput,
            2 => TEE_ParamType::ValueOutput,
            3 => TEE_ParamType::ValueInout,
            5 => TEE_ParamType::MemrefInput,
            6 => TEE_ParamType::MemrefOutput,
            7 => TEE_ParamType::MemrefInout,
            _ => TEE_ParamType::NoParam,
        }
    }

    /// The number that stands for the type on the wire.
    pub fn code(self) -> (code: u32)
        ensures
            code == self.spec_code(),
    {
        match self {
            TEE_ParamType::NoParam => 0,
            TEE_ParamType::ValueInput => 1,
            TEE_ParamType::ValueOutput => 2,
            TEE_ParamType::ValueInout => 3,
            TEE_ParamType::MemrefInput => 5,
            TEE_ParamType::MemrefOutput => 6,
            TEE_ParamType::MemrefInout => 7,
        }
    }
}

impl vstd::std_specs::convert::FromSpecImpl<u32> for TEE_ParamType {
    open spec fn obeys_from_spec() -> bool {
        true
    }

    open spec fn from_spec(value: u32) -> TEE_ParamType {
        TEE_ParamType::of_code(value)
    }
}

impl From<u32> for TEE_ParamType {
    fn from(value: u32) -> (param_type: TEE_ParamType) {
        match value {
            0 => TEE_ParamType::NoParam,
            1 => TEE_ParamType::ValueInput,
            2 => TEE_ParamType::ValueOutput,
            3 => TEE_ParamType::ValueInout,
            5 => TEE_ParamType::MemrefInput,
            6 => TEE_ParamType::MemrefOutput,
            7 => TEE_ParamType::MemrefInout,
            _ => TEE_ParamType::NoParam,
        }
    }
}

/// Every type comes back from its number.
pub proof fn law_param_type_round_trip(param_type: TEE_ParamType)
    ensures
        TEE_ParamType::of_code(param_type.spec_code()) == param_type,
{
}

/// A number comes back from its type, unless it has no meaning: then it comes
/// back as zero.
pub proof fn law_code_round_trip(code: u32)
    ensures
        TEE_ParamType::of_code(code).spec_code() == if code <= 7 && code != 4 {
            code
        } else {
            0
        },
{
}

impl TEE_Value {
    /// The pair of zeros.
    pub open spec fn zero() -> TEE_Value {
        TEE_Value { a: 0, b: 0 }
    }
}

impl TEE_Param {
    /// The parameter holds nothing.
    pub open spec fn is_empty(self) -> bool {
        self.data@.len() == 0 && self.value == TEE_Value::zero()
    }
}

impl TEE_Parameter {
    /// The parameter is not used.
    pub open spec fn is_unused(self) -> bool {
        self.param.is_empty() && self.param_type is NoParam
    }
}

impl Default for TEE_ParamType {
    fn default() -> (param_type: TEE_ParamType)
        ensures
            param_type == TEE_ParamType::NoParam,
    {
        TEE_ParamType::NoParam
    }
}

impl Default for TEE_Value {
    fn default() -> (value: TEE_Value)
        ensures
            value == TEE_Value::zero(),
    {
        TEE_Value { a: 0, b: 0 }
    }
}

impl Default for TEE_Param {
    fn default() -> (param: TEE_Param)
        ensures
            param.is_empty(),
    {
        TEE_Param { data: Vec::new(), value: TEE_Value::default() }
    }
}

impl Default for TEE_Parameter {
    fn default() -> (parameter: TEE_Parameter)
        ensures
            parameter.is_unused(),
    {
        TEE_Parameter { param: TEE_Param::default(), param_type: TEE_ParamType::default() }
    }
}

impl Default for TEE_Parameters {
    fn default() -> (parameters: TEE_Parameters)
        ensures
            parameters.0.is_unused(),
            parameters.1.is_unused(),
            parameters.2.is_unused(),
            parameters.3.is_unused(),
    {
        TEE_Parameters(
            TEE_Parameter::default(),
            TEE_Parameter::default(),
            TEE_Parameter::default(),
            TEE_Parameter::default(),
        )
    }
}

} // verus!
