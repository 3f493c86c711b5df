//! Shell integration scripts: the `acre` wrapper function each shell gets, and completion.

use vstd::prelude::*;

use crate::shell::SupportedShell;
use crate::text::{chars_of, push_str, string_from_chars};

verus! {

/// The completion script for `shell`.
pub open spec fn completion_script(shell: SupportedShell) -> Seq<char> {
    match shell {
        SupportedShell::Fish => "function __acre_complete\n  set -l token (commandline -ct)\n  command $__acre_executable __complete $token 2>/dev/null\nend\ncomplete -c acre -f -a '(__acre_complete)'\n"@,
        SupportedShell::Powershell => "Register-ArgumentCompleter -Native -CommandName acre -ScriptBlock {\n  param($wordToComplete)\n  & $script:AcreExecutable __complete $wordToComplete 2>$null | ForEach-Object {\n    [System.Management.Automation.CompletionResult]::new($_, $_, 'ParameterValue', $_)\n  }\n}\n"@,
        SupportedShell::Zsh => "_acre_completion() {\n  local -a values\n  values=(\"${(@f)$(command \"$_acre_executable\" __complete \"${words[CURRENT]}\" 2>/dev/null)}\")\n  _describe 'acre target' values\n}\ncompdef _acre_completion acre\n"@,
        SupportedShell::Bash => "_acre_completion() {\n  local current\n  current=\"${COMP_WORDS[COMP_CWORD]}\"\n  mapfile -t COMPREPLY < <(command \"$_acre_executable\" __complete \"$current\" 2>/dev/null)\n}\ncomplete -F _acre_completion acre\n"@,
    }
}

/// The completion script registered for `acre` in `shell`.
pub fn generate_completion(shell: SupportedShell) -> (script: String)
    ensures
        script@ == completion_script(shell),
{
    match shell {
        SupportedShell::Fish => "function __acre_complete\n  set -l token (commandline -ct)\n  command $__acre_executable __complete $token 2>/dev/null\nend\ncomplete -c acre -f -a '(__acre_complete)'\n".to_owned(),
        SupportedShell::Powershell => "Register-ArgumentCompleter -Native -CommandName acre -ScriptBlock {\n  param($wordToComplete)\n  & $script:AcreExecutable __complete $wordToComplete 2>$null | ForEach-Object {\n    [System.Management.Automation.CompletionResult]::new($_, $_, 'ParameterValue', $_)\n  }\n}\n".to_owned(),
        SupportedShell::Zsh => "_acre_completion() {\n  local -a values\n  values=(\"${(@f)$(command \"$_acre_executable\" __complete \"${words[CURRENT]}\" 2>/dev/null)}\")\n  _describe 'acre target' values\n}\ncompdef _acre_completion acre\n".to_owned(),
        SupportedShell::Bash => "_acre_completion() {\n  local current\n  current=\"${COMP_WORDS[COMP_CWORD]}\"\n  mapfile -t COMPREPLY < <(command \"$_acre_executable\" __complete \"$current\" 2>/dev/null)\n}\ncomplete -F _acre_completion acre\n".to_owned(),
    }
}

/// The integration for a POSIX-like shell called `name`, ending with `completion`.
pub open spec fn posix_script(name: Seq<char>, completion: Seq<char>) -> Seq<char> {
    "# Acre shell integration for "@ + name + ".\n# Add with: eval \"$(acre shell init "@ + name + ")\"\n\n_acre_executable=\"${ACRE_EXECUTABLE:-$(command -v acre)}\"\nif [ -z \"${ACRE_SHELL_SESSION_ID:-}\" ] && [ -n \"$_acre_executable\" ]; then\n  export ACRE_SHELL_SESSION_ID=\"$(command \"$_acre_executable\" __session-id 2>/dev/null)\"\nfi\n\nacre() {\n  local _acre_file _acre_status _acre_version _acre_action _acre_path _acre_token\n  if [ -n \"${ACRE_EXECUTABLE:-}\" ] && [ -x \"$ACRE_EXECUTABLE\" ]; then\n    _acre_executable=\"$ACRE_EXECUTABLE\"\n  fi\n  if [ -z \"$_acre_executable\" ] || [ ! -x \"$_acre_executable\" ]; then\n    printf '%s\\n' 'Acre executable not found.' >&2\n    return 127\n  fi\n  _acre_file=\"$(mktemp \"${TMPDIR:-/tmp}/acre-directive.XXXXXX\")\" || return 3\n  chmod 600 \"$_acre_file\" 2>/dev/null || true\n  if ACRE_DIRECTIVE_FILE=\"$_acre_file\" ACRE_SHELL_SESSION_ID=\"$ACRE_SHELL_SESSION_ID\" ACRE_SHELL_PID=\"$$\" command \"$_acre_executable\" \"$@\"; then\n    _acre_status=0\n  else\n    _acre_status=$?\n  fi\n\n  if { [ \"$_acre_status\" -eq 0 ] || [ \"$_acre_status\" -eq 194 ]; } && [ -s \"$_acre_file\" ]; then\n    exec 9<\"$_acre_file\"\n    IFS= read -r -d '' _acre_version <&9 || true\n    IFS= read -r -d '' _acre_action <&9 || true\n    IFS= read -r -d '' _acre_path <&9 || true\n    IFS= read -r -d '' _acre_token <&9 || true\n    exec 9<&-\n    if [ \"$_acre_version\" != \"acre-directive-v1\" ]; then\n      printf '%s\\n' 'Acre returned an unsupported shell directive.' >&2\n      _acre_status=3\n    elif [ \"$_acre_action\" = \"cd\" ] && [ \"$_acre_status\" -eq 0 ]; then\n      if [ -d \"$_acre_path\" ]; then\n        builtin cd -- \"$_acre_path\" || _acre_status=$?\n      else\n        printf 'Acre navigation target is unavailable: %s\\n' \"$_acre_path\" >&2\n        _acre_status=3\n      fi\n    elif [ \"$_acre_action\" = \"resume-after-cd\" ] && [ \"$_acre_status\" -eq 194 ]; then\n      if [ -d \"$_acre_path\" ] && [ -n \"$_acre_token\" ]; then\n        builtin cd -- \"$_acre_path\" || _acre_status=$?\n        if [ \"$_acre_status\" -eq 194 ]; then _acre_status=0; fi\n        if [ \"$_acre_status\" -eq 0 ]; then\n          : > \"$_acre_file\"\n          if ACRE_DIRECTIVE_FILE=\"$_acre_file\" ACRE_SHELL_SESSION_ID=\"$ACRE_SHELL_SESSION_ID\" ACRE_SHELL_PID=\"$$\" command \"$_acre_executable\" __resume \"$_acre_token\"; then\n            _acre_status=0\n          else\n            _acre_status=$?\n          fi\n        fi\n      else\n        printf 'Acre safe destination is unavailable: %s\\n' \"$_acre_path\" >&2\n        _acre_status=3\n      fi\n    fi\n  fi\n  rm -f -- \"$_acre_file\"\n  return \"$_acre_status\"\n}\n\n"@ + completion
}

pub open spec fn fish_script() -> Seq<char> {
    "# Acre shell integration for fish.\nset -g __acre_executable (test -n \"$ACRE_EXECUTABLE\"; and echo $ACRE_EXECUTABLE; or type -P acre)\nif test -z \"$ACRE_SHELL_SESSION_ID\"; and test -n \"$__acre_executable\"\n  set -gx ACRE_SHELL_SESSION_ID (command $__acre_executable __session-id 2>/dev/null)\nend\nfunction acre --description 'Warm, reusable Git workspaces'\n  set -l file (mktemp /tmp/acre-directive.XXXXXX)\n  or return 3\n  env ACRE_DIRECTIVE_FILE=$file ACRE_SHELL_SESSION_ID=$ACRE_SHELL_SESSION_ID ACRE_SHELL_PID=$fish_pid $__acre_executable $argv\n  set -l code $status\n  if test -s $file; and contains -- $code 0 194\n    set -l fields (string split0 < $file)\n    if test \"$fields[1]\" = acre-directive-v1\n      if test \"$fields[2]\" = cd; and test $code -eq 0\n        builtin cd -- \"$fields[3]\"\n        set code $status\n      else if test \"$fields[2]\" = resume-after-cd; and test $code -eq 194\n        builtin cd -- \"$fields[3]\"\n        set code $status\n        if test $code -eq 0\n          env ACRE_DIRECTIVE_FILE=$file ACRE_SHELL_SESSION_ID=$ACRE_SHELL_SESSION_ID ACRE_SHELL_PID=$fish_pid $__acre_executable __resume \"$fields[4]\"\n          set code $status\n        end\n      end\n    end\n  end\n  rm -f -- $file\n  return $code\nend\n\n"@ + completion_script(SupportedShell::Fish)
}

pub open spec fn powershell_script() -> Seq<char> {
    "# Acre shell integration for PowerShell.\n$script:AcreExecutable = if ($env:ACRE_EXECUTABLE) { $env:ACRE_EXECUTABLE } else { (Get-Command acre -CommandType Application -ErrorAction SilentlyContinue).Source }\nif ($script:AcreExecutable -and -not $env:ACRE_SHELL_SESSION_ID) {\n  $env:ACRE_SHELL_SESSION_ID = (& $script:AcreExecutable __session-id 2>$null).Trim()\n}\nfunction global:acre {\n  param([Parameter(ValueFromRemainingArguments = $true)][string[]]$AcreArgs)\n  $file = Join-Path ([IO.Path]::GetTempPath()) ('acre-directive-' + [guid]::NewGuid().ToString('N'))\n  [IO.File]::WriteAllBytes($file, [byte[]]@())\n  $env:ACRE_DIRECTIVE_FILE = $file\n  $env:ACRE_SHELL_PID = [string]$PID\n  & $script:AcreExecutable @AcreArgs\n  $code = $LASTEXITCODE\n  if ((Test-Path $file) -and (Get-Item $file).Length -gt 0 -and ($code -eq 0 -or $code -eq 194)) {\n    $fields = ([Text.Encoding]::UTF8.GetString([IO.File]::ReadAllBytes($file))).Split([char]0, [StringSplitOptions]::RemoveEmptyEntries)\n    if ($fields[0] -eq 'acre-directive-v1') {\n      if ($fields[1] -eq 'cd' -and $code -eq 0) { Set-Location -LiteralPath $fields[2] }\n      elseif ($fields[1] -eq 'resume-after-cd' -and $code -eq 194) {\n        Set-Location -LiteralPath $fields[2]\n        & $script:AcreExecutable __resume $fields[3]\n        $code = $LASTEXITCODE\n      }\n    }\n  }\n  Remove-Item -LiteralPath $file -Force -ErrorAction SilentlyContinue\n  $global:LASTEXITCODE = $code\n}\n\n"@ + completion_script(SupportedShell::Powershell)
}

/// The `acre` wrapper function for `shell`: it runs Acre with a directive file, then changes
/// directory or resumes a command as the directive says, and registers completion.
pub open spec fn integration_script(shell: SupportedShell) -> Seq<char> {
    match shell {
        SupportedShell::Bash => posix_script("bash"@, completion_script(SupportedShell::Bash)),
        SupportedShell::Zsh => posix_script("zsh"@, completion_script(SupportedShell::Zsh)),
        SupportedShell::Fish => fish_script(),
        SupportedShell::Powershell => powershell_script(),
    }
}

fn posix_integration(name: &str, completion_shell: SupportedShell) -> (script: String)
    ensures
        script@ == posix_script(name@, completion_script(completion_shell)),
{
    let mut out = chars_of("# Acre shell integration for ");
    push_str(&mut out, name);
    push_str(&mut out, ".\n# Add with: eval \"$(acre shell init ");
    push_str(&mut out, name);
    push_str(&mut out, ")\"\n\n_acre_executable=\"${ACRE_EXECUTABLE:-$(command -v acre)}\"\nif [ -z \"${ACRE_SHELL_SESSION_ID:-}\" ] && [ -n \"$_acre_executable\" ]; then\n  export ACRE_SHELL_SESSION_ID=\"$(command \"$_acre_executable\" __session-id 2>/dev/null)\"\nfi\n\nacre() {\n  local _acre_file _acre_status _acre_version _acre_action _acre_path _acre_token\n  if [ -n \"${ACRE_EXECUTABLE:-}\" ] && [ -x \"$ACRE_EXECUTABLE\" ]; then\n    _acre_executable=\"$ACRE_EXECUTABLE\"\n  fi\n  if [ -z \"$_acre_executable\" ] || [ ! -x \"$_acre_executable\" ]; then\n    printf '%s\\n' 'Acre executable not found.' >&2\n    return 127\n  fi\n  _acre_file=\"$(mktemp \"${TMPDIR:-/tmp}/acre-directive.XXXXXX\")\" || return 3\n  chmod 600 \"$_acre_file\" 2>/dev/null || true\n  if ACRE_DIRECTIVE_FILE=\"$_acre_file\" ACRE_SHELL_SESSION_ID=\"$ACRE_SHELL_SESSION_ID\" ACRE_SHELL_PID=\"$$\" command \"$_acre_executable\" \"$@\"; then\n    _acre_status=0\n  else\n    _acre_status=$?\n  fi\n\n  if { [ \"$_acre_status\" -eq 0 ] || [ \"$_acre_status\" -eq 194 ]; } && [ -s \"$_acre_file\" ]; then\n    exec 9<\"$_acre_file\"\n    IFS= read -r -d '' _acre_version <&9 || true\n    IFS= read -r -d '' _acre_action <&9 || true\n    IFS= read -r -d '' _acre_path <&9 || true\n    IFS= read -r -d '' _acre_token <&9 || true\n    exec 9<&-\n    if [ \"$_acre_version\" != \"acre-directive-v1\" ]; then\n      printf '%s\\n' 'Acre returned an unsupported shell directive.' >&2\n      _acre_status=3\n    elif [ \"$_acre_action\" = \"cd\" ] && [ \"$_acre_status\" -eq 0 ]; then\n      if [ -d \"$_acre_path\" ]; then\n        builtin cd -- \"$_acre_path\" || _acre_status=$?\n      else\n        printf 'Acre navigation target is unavailable: %s\\n' \"$_acre_path\" >&2\n        _acre_status=3\n      fi\n    elif [ \"$_acre_action\" = \"resume-after-cd\" ] && [ \"$_acre_status\" -eq 194 ]; then\n      if [ -d \"$_acre_path\" ] && [ -n \"$_acre_token\" ]; then\n        builtin cd -- \"$_acre_path\" || _acre_status=$?\n        if [ \"$_acre_status\" -eq 194 ]; then _acre_status=0; fi\n        if [ \"$_acre_status\" -eq 0 ]; then\n          : > \"$_acre_file\"\n          if ACRE_DIRECTIVE_FILE=\"$_acre_file\" ACRE_SHELL_SESSION_ID=\"$ACRE_SHELL_SESSION_ID\" ACRE_SHELL_PID=\"$$\" command \"$_acre_executable\" __resume \"$_acre_token\"; then\n            _acre_status=0\n          else\n            _acre_status=$?\n          fi\n        fi\n      else\n        printf 'Acre safe destination is unavailable: %s\\n' \"$_acre_path\" >&2\n        _acre_status=3\n      fi\n    fi\n  fi\n  rm -f -- \"$_acre_file\"\n  return \"$_acre_status\"\n}\n\n");
    let completion = generate_completion(completion_shell);
    push_str(&mut out, completion.as_str());
    string_from_chars(&out)
}

/// The shell integration `acre shell init` prints for `shell`.
pub fn generate_shell_integration(shell: SupportedShell) -> (script: String)
    ensures
        script@ == integration_script(shell),
{
    match shell {
        SupportedShell::Bash => posix_integration("bash", SupportedShell::Bash),
        SupportedShell::Zsh => posix_integration("zsh", SupportedShell::Zsh),
        SupportedShell::Fish => {
            let mut out = chars_of("# Acre shell integration for fish.\nset -g __acre_executable (test -n \"$ACRE_EXECUTABLE\"; and echo $ACRE_EXECUTABLE; or type -P acre)\nif test -z \"$ACRE_SHELL_SESSION_ID\"; and test -n \"$__acre_executable\"\n  set -gx ACRE_SHELL_SESSION_ID (command $__acre_executable __session-id 2>/dev/null)\nend\nfunction acre --description 'Warm, reusable Git workspaces'\n  set -l file (mktemp /tmp/acre-directive.XXXXXX)\n  or return 3\n  env ACRE_DIRECTIVE_FILE=$file ACRE_SHELL_SESSION_ID=$ACRE_SHELL_SESSION_ID ACRE_SHELL_PID=$fish_pid $__acre_executable $argv\n  set -l code $status\n  if test -s $file; and contains -- $code 0 194\n    set -l fields (string split0 < $file)\n    if test \"$fields[1]\" = acre-directive-v1\n      if test \"$fields[2]\" = cd; and test $code -eq 0\n        builtin cd -- \"$fields[3]\"\n        set code $status\n      else if test \"$fields[2]\" = resume-after-cd; and test $code -eq 194\n        builtin cd -- \"$fields[3]\"\n        set code $status\n        if test $code -eq 0\n          env ACRE_DIRECTIVE_FILE=$file ACRE_SHELL_SESSION_ID=$ACRE_SHELL_SESSION_ID ACRE_SHELL_PID=$fish_pid $__acre_executable __resume \"$fields[4]\"\n          set code $status\n        end\n      end\n    end\n  end\n  rm -f -- $file\n  return $code\nend\n\n");
            let completion = generate_completion(SupportedShell::Fish);
            push_str(&mut out, completion.as_str());
            string_from_chars(&out)
        },
        SupportedShell::Powershell => {
            let mut out = chars_of("# Acre shell integration for PowerShell.\n$script:AcreExecutable = if ($env:ACRE_EXECUTABLE) { $env:ACRE_EXECUTABLE } else { (Get-Command acre -CommandType Application -ErrorAction SilentlyContinue).Source }\nif ($script:AcreExecutable -and -not $env:ACRE_SHELL_SESSION_ID) {\n  $env:ACRE_SHELL_SESSION_ID = (& $script:AcreExecutable __session-id 2>$null).Trim()\n}\nfunction global:acre {\n  param([Parameter(ValueFromRemainingArguments = $true)][string[]]$AcreArgs)\n  $file = Join-Path ([IO.Path]::GetTempPath()) ('acre-directive-' + [guid]::NewGuid().ToString('N'))\n  [IO.File]::WriteAllBytes($file, [byte[]]@())\n  $env:ACRE_DIRECTIVE_FILE = $file\n  $env:ACRE_SHELL_PID = [string]$PID\n  & $script:AcreExecutable @AcreArgs\n  $code = $LASTEXITCODE\n  if ((Test-Path $file) -and (Get-Item $file).Length -gt 0 -and ($code -eq 0 -or $code -eq 194)) {\n    $fields = ([Text.Encoding]::UTF8.GetString([IO.File]::ReadAllBytes($file))).Split([char]0, [StringSplitOptions]::RemoveEmptyEntries)\n    if ($fields[0] -eq 'acre-directive-v1') {\n      if ($fields[1] -eq 'cd' -and $code -eq 0) { Set-Location -LiteralPath $fields[2] }\n      elseif ($fields[1] -eq 'resume-after-cd' -and $code -eq 194) {\n        Set-Location -LiteralPath $fields[2]\n        & $script:AcreExecutable __resume $fields[3]\n        $code = $LASTEXITCODE\n      }\n    }\n  }\n  Remove-Item -LiteralPath $file -Force -ErrorAction SilentlyContinue\n  $global:LASTEXITCODE = $code\n}\n\n");
            let completion = generate_completion(SupportedShell::Powershell);
            push_str(&mut out, completion.as_str());
            string_from_chars(&out)
        },
    }
}

} // verus!
