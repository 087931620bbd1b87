//! What the image operations report when they cannot deliver.

use crate::text::decimal;
use crate::text::push_decimal;
use vstd::prelude::*;
use vstd::string::StringExecFns;

verus! {

/// Why an image operation failed. Every failure ends the call that met it:
/// nothing is retried and no partial picture is handed out.
#[derive(Clone, Copy, Debug, PartialEq, Eq, Structural)]
pub enum PipelineError {
    /// The input is not a picture in a known format, or is damaged.
    Decode,
    /// The rectangle asked for reaches beyond the picture.
    Bounds { x: u32, y: u32, width: u32, height: u32, image_width: u32, image_height: u32 },
    /// No picture was given where at least one is needed.
    EmptyInput,
    /// The result could not be written as a PNG.
    Encode,
    /// More strips were asked for than the picture has rows.
    DegenerateRearrange { rows: u32, height: u32 },
    /// The result would exceed what a picture or the address space can hold.
    TooLarge,
}

impl PipelineError {
    /// What `message` says of this failure.
    pub open spec fn message_text(self) -> Seq<char> {
        match self {
            PipelineError::Decode => "Failed to decode image"@,
            PipelineError::Bounds { x, y, width, height, image_width, image_height } =>
                "Crop area ("@ + decimal(x as nat) + ","@ + decimal(y as nat) + ","@ + decimal(
                    width as nat,
                ) + ","@ + decimal(height as nat) + ") exceeds image bounds ("@ + decimal(
                    image_width as nat,
                ) + "x"@ + decimal(image_height as nat) + ")"@,
            PipelineError::EmptyInput => "Image list is empty"@,
            PipelineError::Encode => "Failed to encode image"@,
            PipelineError::DegenerateRearrange { rows, height } => "Cannot cut "@ + decimal(
                height as nat,
            ) + " rows into "@ + decimal(rows as nat) + " strips"@,
            PipelineError::TooLarge => "Image is too large"@,
        }
    }

    /// The failure in words, for the one who has to deal with it.
    pub fn message(&self) -> (text: String)
        ensures
            text@ == self.message_text(),
    {
        match self {
            PipelineError::Decode => String::from_str("Failed to decode image"),
            PipelineError::Bounds { x, y, width, height, image_width, image_height } => {
                let mut text = String::from_str("Crop area (");
                push_decimal(&mut text, *x);
                text.append(",");
                push_decimal(&mut text, *y);
                text.append(",");
                push_decimal(&mut text, *width);
                text.append(",");
                push_decimal(&mut text, *height);
                text.append(") exceeds image bounds (");
                push_decimal(&mut text, *image_width);
                text.append("x");
                push_decimal(&mut text, *image_height);
                text.append(")");
                text
            },
            PipelineError::EmptyInput => String::from_str("Image list is empty"),
            PipelineError::Encode => String::from_str("Failed to encode image"),
            PipelineError::DegenerateRearrange { rows, height } => {
                let mut text = String::from_str("Cannot cut ");
                push_decimal(&mut text, *height);
                text.append(" rows into ");
                push_decimal(&mut text, *rows);
                text.append(" strips");
                text
            },
            PipelineError::TooLarge => String::from_str("Image is too large"),
        }
    }
}

/// Why a descriptor script could not be read.
#[derive(Clone, Debug, PartialEq, Eq)]
pub enum LoaderError {
    /// The script names no module description.
    ModuleInfoNotFound,
    /// The module description is named, but no object follows the name.
    ObjectNotFound,
    /// The field's name does not make a pattern that can be searched for.
    InvalidPattern,
    /// The script gives no value for the named field.
    FieldNotFound(String),
}

/// Why a descriptor script could not be read, as a mathematical value.
pub enum LoaderFailure {
    ModuleInfoNotFound,
    ObjectNotFound,
    InvalidPattern,
    FieldNotFound(Seq<char>),
}

impl View for LoaderError {
    type V = LoaderFailure;

    open spec fn view(&self) -> LoaderFailure {
        match self {
            LoaderError::ModuleInfoNotFound => LoaderFailure::ModuleInfoNotFound,
            LoaderError::ObjectNotFound => LoaderFailure::ObjectNotFound,
            LoaderError::InvalidPattern => LoaderFailure::InvalidPattern,
            LoaderError::FieldNotFound(field) => LoaderFailure::FieldNotFound(field@),
        }
    }
}

impl LoaderFailure {
    /// What `message` says of this failure.
    pub open spec fn message_text(self) -> Seq<char> {
        match self {
            LoaderFailure::ModuleInfoNotFound => "moduleInfo not found"@,
            LoaderFailure::ObjectNotFound => "moduleInfo object not found"@,
            LoaderFailure::InvalidPattern => "Field name is not a valid pattern"@,
            LoaderFailure::FieldNotFound(field) => "Field '"@ + field
                + "' not found in module script"@,
        }
    }
}

impl LoaderError {
    /// The failure in words, for the one who has to deal with it.
    pub fn message(&self) -> (text: String)
        ensures
            text@ == self@.message_text(),
    {
        match self {
            LoaderError::ModuleInfoNotFound => String::from_str("moduleInfo not found"),
            LoaderError::ObjectNotFound => String::from_str("moduleInfo object not found"),
            LoaderError::InvalidPattern => String::from_str("Field name is not a valid pattern"),
            LoaderError::FieldNotFound(field) => {
                let mut text = String::from_str("Field '");
                text.append(field.as_str());
                text.append("' not found in module script");
                text
            },
        }
    }
}

} // verus!
