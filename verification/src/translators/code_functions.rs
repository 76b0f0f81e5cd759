//! The code functions that block mappings can name, with the inputs they take and the
//! outputs they give.

use vstd::prelude::*;

verus! {

/// A function of the mappings that is carried out by code rather than by data.
#[derive(Debug, Clone, Copy, PartialEq, Eq, PartialOrd, Ord, Hash, Structural)]
pub enum CodeFunction {
    BannerPattern2u,
    BannerPatternFu,
    BedrockChestConnectionOtherLeft,
    BedrockChestConnectionOtherLeftUpdated,
    BedrockChestConnectionOtherRight,
    BedrockChestConnectionOtherRightUpdated,
    BedrockChestConnectionSelf,
    BedrockChestConnectionSelfUpdated,
    BedrockChestFu,
    BedrockCmdCustomName2u,
    BedrockCmdCustomNameFu,
    BedrockMovingBlockPos2u,
    BedrockMovingBlockPosFu,
    BedrockSign2u,
    BedrockSign2uUpdated,
    BedrockSignFu,
    BedrockSignFuUpdated,
    BedrockSkullRotation2u,
}

impl CodeFunction {
    /// The name of this function in the mappings.
    pub open spec fn spec_name(self) -> &'static str {
        match self {
            CodeFunction::BannerPattern2u => "banner_pattern_2u",
            CodeFunction::BannerPatternFu => "banner_pattern_fu",
            CodeFunction::BedrockChestConnectionOtherLeft => "bedrock_chest_connection_other_left",
            CodeFunction::BedrockChestConnectionOtherLeftUpdated => "bedrock_chest_connection_other_left_120",
            CodeFunction::BedrockChestConnectionOtherRight => "bedrock_chest_connection_other_right",
            CodeFunction::BedrockChestConnectionOtherRightUpdated => "bedrock_chest_connection_other_right_120",
            CodeFunction::BedrockChestConnectionSelf => "bedrock_chest_connection_self",
            CodeFunction::BedrockChestConnectionSelfUpdated => "bedrock_chest_connection_self_120",
            CodeFunction::BedrockChestFu => "bedrock_chest_fu",
            CodeFunction::BedrockCmdCustomName2u => "bedrock_cmd_custom_name_2u",
            CodeFunction::BedrockCmdCustomNameFu => "bedrock_cmd_custom_name_fu",
            CodeFunction::BedrockMovingBlockPos2u => "bedrock_moving_block_pos_2u",
            CodeFunction::BedrockMovingBlockPosFu => "bedrock_moving_block_pos_fu",
            CodeFunction::BedrockSign2u => "bedrock_sign_2u",
            CodeFunction::BedrockSign2uUpdated => "bedrock_sign_2u_120",
            CodeFunction::BedrockSignFu => "bedrock_sign_fu",
            CodeFunction::BedrockSignFuUpdated => "bedrock_sign_fu_120",
            CodeFunction::BedrockSkullRotation2u => "bedrock_skull_rotation_2u",
        }
    }

    /// The name of this function in the mappings.
    pub fn name(self) -> (res: &'static str)
        ensures
            res == self.spec_name(),
    {
        match self {
            CodeFunction::BannerPattern2u => "banner_pattern_2u",
            CodeFunction::BannerPatternFu => "banner_pattern_fu",
            CodeFunction::BedrockChestConnectionOtherLeft => "bedrock_chest_connection_other_left",
            CodeFunction::BedrockChestConnectionOtherLeftUpdated => "bedrock_chest_connection_other_left_120",
            CodeFunction::BedrockChestConnectionOtherRight => "bedrock_chest_connection_other_right",
            CodeFunction::BedrockChestConnectionOtherRightUpdated => "bedrock_chest_connection_other_right_120",
            CodeFunction::BedrockChestConnectionSelf => "bedrock_chest_connection_self",
            CodeFunction::BedrockChestConnectionSelfUpdated => "bedrock_chest_connection_self_120",
            CodeFunction::BedrockChestFu => "bedrock_chest_fu",
            CodeFunction::BedrockCmdCustomName2u => "bedrock_cmd_custom_name_2u",
            CodeFunction::BedrockCmdCustomNameFu => "bedrock_cmd_custom_name_fu",
            CodeFunction::BedrockMovingBlockPos2u => "bedrock_moving_block_pos_2u",
            CodeFunction::BedrockMovingBlockPosFu => "bedrock_moving_block_pos_fu",
            CodeFunction::BedrockSign2u => "bedrock_sign_2u",
            CodeFunction::BedrockSign2uUpdated => "bedrock_sign_2u_120",
            CodeFunction::BedrockSignFu => "bedrock_sign_fu",
            CodeFunction::BedrockSignFuUpdated => "bedrock_sign_fu_120",
            CodeFunction::BedrockSkullRotation2u => "bedrock_skull_rotation_2u",
        }
    }

    /// The kind of input this function takes.
    pub open spec fn spec_input_type(self) -> CodeFunctionInput {
        match self {
            CodeFunction::BannerPattern2u => CodeFunctionInput::Nbt,
            CodeFunction::BannerPatternFu => CodeFunctionInput::Nbt,
            CodeFunction::BedrockChestConnectionOtherLeft => CodeFunctionInput::NbtPropertiesPosition,
            CodeFunction::BedrockChestConnectionOtherLeftUpdated => CodeFunctionInput::NbtPropertiesPosition,
            CodeFunction::BedrockChestConnectionOtherRight => CodeFunctionInput::NbtPropertiesPosition,
            CodeFunction::BedrockChestConnectionOtherRightUpdated => CodeFunctionInput::NbtPropertiesPosition,
            CodeFunction::BedrockChestConnectionSelf => CodeFunctionInput::NbtPropertiesPosition,
            CodeFunction::BedrockChestConnectionSelfUpdated => CodeFunctionInput::NbtPropertiesPosition,
            CodeFunction::BedrockChestFu => CodeFunctionInput::PropertiesPosition,
            CodeFunction::BedrockCmdCustomName2u => CodeFunctionInput::Nbt,
            CodeFunction::BedrockCmdCustomNameFu => CodeFunctionInput::Nbt,
            CodeFunction::BedrockMovingBlockPos2u => CodeFunctionInput::NbtPosition,
            CodeFunction::BedrockMovingBlockPosFu => CodeFunctionInput::NbtPosition,
            CodeFunction::BedrockSign2u => CodeFunctionInput::Nbt,
            CodeFunction::BedrockSign2uUpdated => CodeFunctionInput::Nbt,
            CodeFunction::BedrockSignFu => CodeFunctionInput::Nbt,
            CodeFunction::BedrockSignFuUpdated => CodeFunctionInput::Nbt,
            CodeFunction::BedrockSkullRotation2u => CodeFunctionInput::Nbt,
        }
    }

    /// The kind of output this function gives.
    pub open spec fn spec_output_type(self) -> CodeFunctionOutput {
        match self {
            CodeFunction::BannerPattern2u => CodeFunctionOutput::NewNbt,
            CodeFunction::BannerPatternFu => CodeFunctionOutput::NewNbt,
            CodeFunction::BedrockChestConnectionOtherLeft => CodeFunctionOutput::NewProperties,
            CodeFunction::BedrockChestConnectionOtherLeftUpdated => CodeFunctionOutput::NewProperties,
            CodeFunction::BedrockChestConnectionOtherRight => CodeFunctionOutput::NewProperties,
            CodeFunction::BedrockChestConnectionOtherRightUpdated => CodeFunctionOutput::NewProperties,
            CodeFunction::BedrockChestConnectionSelf => CodeFunctionOutput::NewProperties,
            CodeFunction::BedrockChestConnectionSelfUpdated => CodeFunctionOutput::NewProperties,
            CodeFunction::BedrockChestFu => CodeFunctionOutput::NewNbt,
            CodeFunction::BedrockCmdCustomName2u => CodeFunctionOutput::NewNbt,
            CodeFunction::BedrockCmdCustomNameFu => CodeFunctionOutput::NewNbt,
            CodeFunction::BedrockMovingBlockPos2u => CodeFunctionOutput::NewNbt,
            CodeFunction::BedrockMovingBlockPosFu => CodeFunctionOutput::NewNbt,
            CodeFunction::BedrockSign2u => CodeFunctionOutput::NewNbt,
            CodeFunction::BedrockSign2uUpdated => CodeFunctionOutput::NewNbt,
            CodeFunction::BedrockSignFu => CodeFunctionOutput::NewNbt,
            CodeFunction::BedrockSignFuUpdated => CodeFunctionOutput::NewNbt,
            CodeFunction::BedrockSkullRotation2u => CodeFunctionOutput::NewProperties,
        }
    }

    pub fn input_type(&self) -> (res: CodeFunctionInput)
        ensures
            res == self.spec_input_type(),
    {
        match self {
            CodeFunction::BannerPattern2u => CodeFunctionInput::Nbt,
            CodeFunction::BannerPatternFu => CodeFunctionInput::Nbt,
            CodeFunction::BedrockChestConnectionOtherLeft => CodeFunctionInput::NbtPropertiesPosition,
            CodeFunction::BedrockChestConnectionOtherLeftUpdated => CodeFunctionInput::NbtPropertiesPosition,
            CodeFunction::BedrockChestConnectionOtherRight => CodeFunctionInput::NbtPropertiesPosition,
            CodeFunction::BedrockChestConnectionOtherRightUpdated => CodeFunctionInput::NbtPropertiesPosition,
            CodeFunction::BedrockChestConnectionSelf => CodeFunctionInput::NbtPropertiesPosition,
            CodeFunction::BedrockChestConnectionSelfUpdated => CodeFunctionInput::NbtPropertiesPosition,
            CodeFunction::BedrockChestFu => CodeFunctionInput::PropertiesPosition,
            CodeFunction::BedrockCmdCustomName2u => CodeFunctionInput::Nbt,
            CodeFunction::BedrockCmdCustomNameFu => CodeFunctionInput::Nbt,
            CodeFunction::BedrockMovingBlockPos2u => CodeFunctionInput::NbtPosition,
            CodeFunction::BedrockMovingBlockPosFu => CodeFunctionInput::NbtPosition,
            CodeFunction::BedrockSign2u => CodeFunctionInput::Nbt,
            CodeFunction::BedrockSign2uUpdated => CodeFunctionInput::Nbt,
            CodeFunction::BedrockSignFu => CodeFunctionInput::Nbt,
            CodeFunction::BedrockSignFuUpdated => CodeFunctionInput::Nbt,
            CodeFunction::BedrockSkullRotation2u => CodeFunctionInput::Nbt,
        }
    }

    pub fn output_type(&self) -> (res: CodeFunctionOutput)
        ensures
            res == self.spec_output_type(),
    {
        match self {
            CodeFunction::BannerPattern2u => CodeFunctionOutput::NewNbt,
            CodeFunction::BannerPatternFu => CodeFunctionOutput::NewNbt,
            CodeFunction::BedrockChestConnectionOtherLeft => CodeFunctionOutput::NewProperties,
            CodeFunction::BedrockChestConnectionOtherLeftUpdated => CodeFunctionOutput::NewProperties,
            CodeFunction::BedrockChestConnectionOtherRight => CodeFunctionOutput::NewProperties,
            CodeFunction::BedrockChestConnectionOtherRightUpdated => CodeFunctionOutput::NewProperties,
            CodeFunction::BedrockChestConnectionSelf => CodeFunctionOutput::NewProperties,
            CodeFunction::BedrockChestConnectionSelfUpdated => CodeFunctionOutput::NewProperties,
            CodeFunction::BedrockChestFu => CodeFunctionOutput::NewNbt,
            CodeFunction::BedrockCmdCustomName2u => CodeFunctionOutput::NewNbt,
            CodeFunction::BedrockCmdCustomNameFu => CodeFunctionOutput::NewNbt,
            CodeFunction::BedrockMovingBlockPos2u => CodeFunctionOutput::NewNbt,
            CodeFunction::BedrockMovingBlockPosFu => CodeFunctionOutput::NewNbt,
            CodeFunction::BedrockSign2u => CodeFunctionOutput::NewNbt,
            CodeFunction::BedrockSign2uUpdated => CodeFunctionOutput::NewNbt,
            CodeFunction::BedrockSignFu => CodeFunctionOutput::NewNbt,
            CodeFunction::BedrockSignFuUpdated => CodeFunctionOutput::NewNbt,
            CodeFunction::BedrockSkullRotation2u => CodeFunctionOutput::NewProperties,
        }
    }
}

impl From<CodeFunction> for &'static str {
    fn from(function: CodeFunction) -> (res: &'static str) {
        function.name()
    }
}

impl vstd::std_specs::convert::FromSpecImpl<CodeFunction> for &'static str {
    open spec fn obeys_from_spec() -> bool {
        true
    }

    open spec fn from_spec(function: CodeFunction) -> &'static str {
        function.spec_name()
    }
}

/// The kinds of input that code functions take.
#[derive(Debug, Clone, Copy, PartialEq, Eq, Structural)]
pub enum CodeFunctionInput {
    Nbt,
    NbtPosition,
    NbtPropertiesPosition,
    PropertiesPosition,
}

impl CodeFunctionInput {
    /// The names of the inputs, in order.
    pub open spec fn spec_names(self) -> Seq<&'static str> {
        match self {
            CodeFunctionInput::Nbt => seq!["nbt"],
            CodeFunctionInput::NbtPosition => seq!["nbt", "location"],
            CodeFunctionInput::NbtPropertiesPosition => seq!["nbt", "properties", "location"],
            CodeFunctionInput::PropertiesPosition => seq!["properties", "location"],
        }
    }

    /// The names of the inputs, in order.
    pub fn to_vec(self) -> (res: Vec<&'static str>)
        ensures
            res@ == self.spec_names(),
    {
        let mut names: Vec<&'static str> = Vec::new();
        match self {
            CodeFunctionInput::Nbt => {
                names.push("nbt");
            },
            CodeFunctionInput::NbtPosition => {
                names.push("nbt");
                names.push("location");
            },
            CodeFunctionInput::NbtPropertiesPosition => {
                names.push("nbt");
                names.push("properties");
                names.push("location");
            },
            CodeFunctionInput::PropertiesPosition => {
                names.push("properties");
                names.push("location");
            },
        }
        assert(names@ =~= self.spec_names());
        names
    }
}

/// The kinds of output that code functions give.
#[derive(Debug, Clone, Copy, PartialEq, Eq, Structural)]
pub enum CodeFunctionOutput {
    NewNbt,
    NewProperties,
}

impl CodeFunctionOutput {
    /// The names of the outputs, in order.
    pub open spec fn spec_names(self) -> Seq<&'static str> {
        match self {
            CodeFunctionOutput::NewNbt => seq!["new_nbt"],
            CodeFunctionOutput::NewProperties => seq!["new_properties"],
        }
    }

    /// The names of the outputs, in order.
    pub fn to_vec(self) -> (res: Vec<&'static str>)
        ensures
            res@ == self.spec_names(),
    {
        let mut names: Vec<&'static str> = Vec::new();
        match self {
            CodeFunctionOutput::NewNbt => {
                names.push("new_nbt");
            },
            CodeFunctionOutput::NewProperties => {
                names.push("new_properties");
            },
        }
        assert(names@ =~= self.spec_names());
        names
    }
}


/// Each code function's name in the mappings, and the kinds of input it takes and output it
/// gives.
pub proof fn lemma_code_function_table()
    ensures
        CodeFunction::BannerPattern2u.spec_name()@ == "banner_pattern_2u"@,
        CodeFunction::BannerPatternFu.spec_name()@ == "banner_pattern_fu"@,
        CodeFunction::BedrockChestConnectionOtherLeft.spec_name()@ == "bedrock_chest_connection_other_left"@,
        CodeFunction::BedrockChestConnectionOtherLeftUpdated.spec_name()@ == "bedrock_chest_connection_other_left_120"@,
        CodeFunction::BedrockChestConnectionOtherRight.spec_name()@ == "bedrock_chest_connection_other_right"@,
        CodeFunction::BedrockChestConnectionOtherRightUpdated.spec_name()@ == "bedrock_chest_connection_other_right_120"@,
        CodeFunction::BedrockChestConnectionSelf.spec_name()@ == "bedrock_chest_connection_self"@,
        CodeFunction::BedrockChestConnectionSelfUpdated.spec_name()@ == "bedrock_chest_connection_self_120"@,
        CodeFunction::BedrockChestFu.spec_name()@ == "bedrock_chest_fu"@,
        CodeFunction::BedrockCmdCustomName2u.spec_name()@ == "bedrock_cmd_custom_name_2u"@,
        CodeFunction::BedrockCmdCustomNameFu.spec_name()@ == "bedrock_cmd_custom_name_fu"@,
        CodeFunction::BedrockMovingBlockPos2u.spec_name()@ == "bedrock_moving_block_pos_2u"@,
        CodeFunction::BedrockMovingBlockPosFu.spec_name()@ == "bedrock_moving_block_pos_fu"@,
        CodeFunction::BedrockSign2u.spec_name()@ == "bedrock_sign_2u"@,
        CodeFunction::BedrockSign2uUpdated.spec_name()@ == "bedrock_sign_2u_120"@,
        CodeFunction::BedrockSignFu.spec_name()@ == "bedrock_sign_fu"@,
        CodeFunction::BedrockSignFuUpdated.spec_name()@ == "bedrock_sign_fu_120"@,
        CodeFunction::BedrockSkullRotation2u.spec_name()@ == "bedrock_skull_rotation_2u"@,
        CodeFunction::BannerPattern2u.spec_input_type() == CodeFunctionInput::Nbt,
        CodeFunction::BannerPatternFu.spec_input_type() == CodeFunctionInput::Nbt,
        CodeFunction::BedrockChestConnectionOtherLeft.spec_input_type() == CodeFunctionInput::NbtPropertiesPosition,
        CodeFunction::BedrockChestConnectionOtherLeftUpdated.spec_input_type() == CodeFunctionInput::NbtPropertiesPosition,
        CodeFunction::BedrockChestConnectionOtherRight.spec_input_type() == CodeFunctionInput::NbtPropertiesPosition,
        CodeFunction::BedrockChestConnectionOtherRightUpdated.spec_input_type() == CodeFunctionInput::NbtPropertiesPosition,
        CodeFunction::BedrockChestConnectionSelf.spec_input_type() == CodeFunctionInput::NbtPropertiesPosition,
        CodeFunction::BedrockChestConnectionSelfUpdated.spec_input_type() == CodeFunctionInput::NbtPropertiesPosition,
        CodeFunction::BedrockChestFu.spec_input_type() == CodeFunctionInput::PropertiesPosition,
        CodeFunction::BedrockCmdCustomName2u.spec_input_type() == CodeFunctionInput::Nbt,
        CodeFunction::BedrockCmdCustomNameFu.spec_input_type() == CodeFunctionInput::Nbt,
        CodeFunction::BedrockMovingBlockPos2u.spec_input_type() == CodeFunctionInput::NbtPosition,
        CodeFunction::BedrockMovingBlockPosFu.spec_input_type() == CodeFunctionInput::NbtPosition,
        CodeFunction::BedrockSign2u.spec_input_type() == CodeFunctionInput::Nbt,
        CodeFunction::BedrockSign2uUpdated.spec_input_type() == CodeFunctionInput::Nbt,
        CodeFunction::BedrockSignFu.spec_input_type() == CodeFunctionInput::Nbt,
        CodeFunction::BedrockSignFuUpdated.spec_input_type() == CodeFunctionInput::Nbt,
        CodeFunction::BedrockSkullRotation2u.spec_input_type() == CodeFunctionInput::Nbt,
        CodeFunction::BannerPattern2u.spec_output_type() == CodeFunctionOutput::NewNbt,
        CodeFunction::BannerPatternFu.spec_output_type() == CodeFunctionOutput::NewNbt,
        CodeFunction::BedrockChestConnectionOtherLeft.spec_output_type() == CodeFunctionOutput::NewProperties,
        CodeFunction::BedrockChestConnectionOtherLeftUpdated.spec_output_type() == CodeFunctionOutput::NewProperties,
        CodeFunction::BedrockChestConnectionOtherRight.spec_output_type() == CodeFunctionOutput::NewProperties,
        CodeFunction::BedrockChestConnectionOtherRightUpdated.spec_output_type() == CodeFunctionOutput::NewProperties,
        CodeFunction::BedrockChestConnectionSelf.spec_output_type() == CodeFunctionOutput::NewProperties,
        CodeFunction::BedrockChestConnectionSelfUpdated.spec_output_type() == CodeFunctionOutput::NewProperties,
        CodeFunction::BedrockChestFu.spec_output_type() == CodeFunctionOutput::NewNbt,
        CodeFunction::BedrockCmdCustomName2u.spec_output_type() == CodeFunctionOutput::NewNbt,
        CodeFunction::BedrockCmdCustomNameFu.spec_output_type() == CodeFunctionOutput::NewNbt,
        CodeFunction::BedrockMovingBlockPos2u.spec_output_type() == CodeFunctionOutput::NewNbt,
        CodeFunction::BedrockMovingBlockPosFu.spec_output_type() == CodeFunctionOutput::NewNbt,
        CodeFunction::BedrockSign2u.spec_output_type() == CodeFunctionOutput::NewNbt,
        CodeFunction::BedrockSign2uUpdated.spec_output_type() == CodeFunctionOutput::NewNbt,
        CodeFunction::BedrockSignFu.spec_output_type() == CodeFunctionOutput::NewNbt,
        CodeFunction::BedrockSignFuUpdated.spec_output_type() == CodeFunctionOutput::NewNbt,
        CodeFunction::BedrockSkullRotation2u.spec_output_type() == CodeFunctionOutput::NewProperties,
{
}

/// The names of the inputs and outputs of code functions, in order.
pub proof fn lemma_code_function_io_names()
    ensures
        CodeFunctionInput::Nbt.spec_names().len() == 1,
        CodeFunctionInput::Nbt.spec_names()[0]@ == "nbt"@,
        CodeFunctionInput::NbtPosition.spec_names().len() == 2,
        CodeFunctionInput::NbtPosition.spec_names()[0]@ == "nbt"@,
        CodeFunctionInput::NbtPosition.spec_names()[1]@ == "location"@,
        CodeFunctionInput::NbtPropertiesPosition.spec_names().len() == 3,
        CodeFunctionInput::NbtPropertiesPosition.spec_names()[0]@ == "nbt"@,
        CodeFunctionInput::NbtPropertiesPosition.spec_names()[1]@ == "properties"@,
        CodeFunctionInput::NbtPropertiesPosition.spec_names()[2]@ == "location"@,
        CodeFunctionInput::PropertiesPosition.spec_names().len() == 2,
        CodeFunctionInput::PropertiesPosition.spec_names()[0]@ == "properties"@,
        CodeFunctionInput::PropertiesPosition.spec_names()[1]@ == "location"@,
        CodeFunctionOutput::NewNbt.spec_names().len() == 1,
        CodeFunctionOutput::NewNbt.spec_names()[0]@ == "new_nbt"@,
        CodeFunctionOutput::NewProperties.spec_names().len() == 1,
        CodeFunctionOutput::NewProperties.spec_names()[0]@ == "new_properties"@,
{
}

} // verus!
