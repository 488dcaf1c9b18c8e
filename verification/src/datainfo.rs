//! What the tool reports about a dataset.

use vstd::prelude::*;

verus! {

/// Field type codes as the vector driver reports them.
pub const FIELD_INTEGER: u32 = 0;

pub const FIELD_INTEGER_LIST: u32 = 1;

pub const FIELD_REAL: u32 = 2;

pub const FIELD_REAL_LIST: u32 = 3;

pub const FIELD_STRING: u32 = 4;

pub const FIELD_STRING_LIST: u32 = 5;

pub const FIELD_BINARY: u32 = 8;

pub const FIELD_DATE: u32 = 9;

pub const FIELD_TIME: u32 = 10;

pub const FIELD_DATE_TIME: u32 = 11;

/// Whether a dataset holds raster bands or vector layers.
#[derive(Clone, Copy, Debug, PartialEq, Eq, Structural)]
pub enum DatasetType {
    Raster,
    Vector,
}

/// One layer of a vector dataset.
#[derive(Debug)]
pub struct LayerInfo {
    pub name: String,
    pub crs: Option<String>,
    /// Name and type name of each field, in the layer's order.
    pub fields: Vec<(String, String)>,
    pub feature_count: u64,
}

/// A dataset's description.
#[derive(Debug)]
pub struct DatasetInfo {
    pub dataset_type: DatasetType,
    pub driver: String,
    pub crs: Option<String>,
    pub size: Option<(usize, usize)>,
    pub band_count: Option<usize>,
    pub layers: Option<Vec<LayerInfo>>,
    pub layer_count: Option<usize>,
}

/// The display name of a field type code.
pub open spec fn field_type_name(ftype: u32) -> Seq<char> {
    if ftype == FIELD_INTEGER {
        "Integer"@
    } else if ftype == FIELD_INTEGER_LIST {
        "IntegerList"@
    } else if ftype == FIELD_REAL {
        "Real"@
    } else if ftype == FIELD_REAL_LIST {
        "RealList"@
    } else if ftype == FIELD_STRING {
        "String"@
    } else if ftype == FIELD_STRING_LIST {
        "StringList"@
    } else if ftype == FIELD_BINARY {
        "Binary"@
    } else if ftype == FIELD_DATE {
        "Date"@
    } else if ftype == FIELD_TIME {
        "Time"@
    } else if ftype == FIELD_DATE_TIME {
        "DateTime"@
    } else {
        "Unknown"@
    }
}

/// A dataset with at least one band is a raster; any other is a vector.
pub open spec fn kind_for(band_count: usize) -> DatasetType {
    if band_count > 0 {
        DatasetType::Raster
    } else {
        DatasetType::Vector
    }
}

pub fn field_type_to_str(ftype: u32) -> (name: &'static str)
    ensures
        name@ == field_type_name(ftype),
{
    if ftype == FIELD_INTEGER {
        "Integer"
    } else if ftype == FIELD_INTEGER_LIST {
        "IntegerList"
    } else if ftype == FIELD_REAL {
        "Real"
    } else if ftype == FIELD_REAL_LIST {
        "RealList"
    } else if ftype == FIELD_STRING {
        "String"
    } else if ftype == FIELD_STRING_LIST {
        "StringList"
    } else if ftype == FIELD_BINARY {
        "Binary"
    } else if ftype == FIELD_DATE {
        "Date"
    } else if ftype == FIELD_TIME {
        "Time"
    } else if ftype == FIELD_DATE_TIME {
        "DateTime"
    } else {
        "Unknown"
    }
}

pub fn dataset_kind(band_count: usize) -> (kind: DatasetType)
    ensures
        kind == kind_for(band_count),
{
    if band_count > 0 {
        DatasetType::Raster
    } else {
        DatasetType::Vector
    }
}

impl LayerInfo {
    /// Describes a layer from its name, reference system, feature count and
    /// its fields given by name and type code.
    pub fn describe(
        name: String,
        crs: Option<String>,
        raw_fields: &Vec<(String, u32)>,
        feature_count: u64,
    ) -> (layer: LayerInfo)
        ensures
            layer.name == name,
            layer.crs == crs,
            layer.feature_count == feature_count,
            layer.fields@.len() == raw_fields@.len(),
            forall|i: int|
                0 <= i < raw_fields@.len() ==> {
                    &&& (#[trigger] layer.fields@[i]).0 == raw_fields@[i].0
                    &&& layer.fields@[i].1@ == field_type_name(raw_fields@[i].1)
                },
    {
        let mut fields: Vec<(String, String)> = Vec::new();
        let mut i: usize = 0;
        while i < raw_fields.len()
            invariant
                i <= raw_fields@.len(),
                fields@.len() == i,
                forall|k: int|
                    0 <= k < i ==> {
                        &&& (#[trigger] fields@[k]).0 == raw_fields@[k].0
                        &&& fields@[k].1@ == field_type_name(raw_fields@[k].1)
                    },
            decreases raw_fields@.len() - i,
        {
            let field_name: String = raw_fields[i].0.clone();
            let kind_label: String = field_type_to_str(raw_fields[i].1).to_owned();
            fields.push((field_name, kind_label));
            i = i + 1;
        }
        LayerInfo { name, crs, fields, feature_count }
    }
}

impl DatasetInfo {
    /// A description carries the fields of its kind and no others.
    pub open spec fn wf(&self) -> bool {
        match self.dataset_type {
            DatasetType::Raster => {
                &&& self.size.is_some()
                &&& self.band_count.is_some()
                &&& self.band_count.unwrap() > 0
                &&& self.layers.is_none()
                &&& self.layer_count.is_none()
            },
            DatasetType::Vector => {
                &&& self.size.is_none()
                &&& self.band_count.is_none()
                &&& self.crs.is_none()
                &&& self.layers.is_some()
                &&& self.layer_count == Some(self.layers.unwrap()@.len() as usize)
            },
        }
    }

    /// Describes a raster dataset.
    pub fn raster(driver: String, crs: Option<String>, size: (usize, usize), band_count: usize) -> (info:
        DatasetInfo)
        requires
            band_count > 0,
        ensures
            info.wf(),
            info.dataset_type == DatasetType::Raster,
            info.driver == driver,
            info.crs == crs,
            info.size == Some(size),
            info.band_count == Some(band_count),
    {
        DatasetInfo {
            dataset_type: DatasetType::Raster,
            driver,
            crs,
            size: Some(size),
            band_count: Some(band_count),
            layers: None,
            layer_count: None,
        }
    }

    /// Describes a vector dataset by its layers.
    pub fn vector(driver: String, layers: Vec<LayerInfo>) -> (info: DatasetInfo)
        ensures
            info.wf(),
            info.dataset_type == DatasetType::Vector,
            info.driver == driver,
            info.layers == Some(layers),
            info.layer_count == Some(layers@.len() as usize),
    {
        let layer_count: usize = layers.len();
        DatasetInfo {
            dataset_type: DatasetType::Vector,
            driver,
            crs: None,
            size: None,
            band_count: None,
            layers: Some(layers),
            layer_count: Some(layer_count),
        }
    }
}

} // verus!
