use vatsim_parser::sct::{Coordinate, Sct};
use vatsim_parser::sct_text::{format_coordinate, format_dms};
use vatsim_parser::Sign;

#[test]
fn test_sct_fmt() {
    let sct_bytes = b"
;=========================================================================================================================;

[INFO]
AeroNav M\xfcnchen 2401/1-1 EDMM 20240125
AERO_NAV
ZZZZ
N048.21.13.618
E011.47.09.909
60
39
-3
1

#define colour_APP       16711680
#define colour_AirspaceA  8421376
#define prohibitcolour 7697781		; 117,117,117	Prohibited areas

[VOR]
NUB  115.750 N049.30.10.508 E011.02.06.000 ; NUB Comment Test
OTT  112.300 N048.10.49.418 E011.48.59.529

[NDB]
MIQ  426.000 N048.34.12.810 E011.35.51.010 ;MIQ Comment Test
RTT  303.000 N047.25.51.319 E011.56.24.190

[FIXES]
(FM-C) N049.31.05.999 E008.26.42.000
ARMUT N049.43.20.999 E012.19.23.998
GEDSO N047.04.50.001 E011.52.13.000
INBED N049.23.15.000 E010.56.30.001
NAXAV N046.27.49.881 E011.19.19.858
UNKUL N049.08.13.999 E011.27.34.999
VEMUT N049.48.38.678 E012.27.40.489

[AIRPORT]
EDDM 000.000 N048.21.13.618 E011.47.09.909 D
EDNX 000.000 N048.14.20.399 E011.33.33.001 D
LIPB 000.000 N046.27.37.000 E011.19.35.000 D

[RUNWAY]
08R 26L 080 260 N048.20.26.408 E011.45.03.661 N048.20.41.269 E011.48.16.610 EDDM
08L 26R 080 260 N048.21.45.961 E011.46.03.179 N048.22.00.789 E011.49.16.219 EDDM
07  25  071 251 N048.14.17.710 E011.33.14.090 N048.14.24.388 E011.33.51.998 EDNX
04 22 037 217 N054.36.43.340 W005.52.47.140 N054.37.29.480 W005.51.51.950 EGAC Belfast/City

[SID]
EDDM SID 26L BIBAGxS                     N048.20.25.315 E011.44.49.465 N048.20.15.608 E011.42.33.951
                                         N048.20.15.608 E011.42.33.951 N048.17.15.248 E011.42.28.821
                                         N048.17.15.248 E011.42.28.821 N048.10.49.418 E011.48.59.529
                                         N048.10.49.418 E011.48.59.529 N048.13.54.868 E012.33.55.821
                                         N048.13.54.868 E012.33.55.821 N048.23.49.380 E012.44.59.211

EDDN SID 28 BOLSIxG                      N049.30.02.914 E011.03.23.507 N049.30.47.941 E010.55.42.060
                                         N049.30.47.941 E010.55.42.060 N049.27.44.369 E010.45.45.219
                                         N049.27.44.369 E010.45.45.219 N049.13.54.559 E010.45.30.628

[STAR]
EDDM TRAN RNP26R LANDU26                 N048.35.46.899 E012.16.26.140 N048.32.16.501 E011.30.05.529 colour_APP
                                         N048.32.16.501 E011.30.05.529 N048.25.44.061 E011.31.15.931 colour_APP
                                         N048.25.44.061 E011.31.15.931 N048.29.36.319 E012.22.42.409 colour_APP
                                         N048.29.36.319 E012.22.42.409 N048.30.47.361 E012.37.38.952 colour_APP

EDDN TRAN ILS10 DN430                    N049.33.11.289 E010.30.33.379 N049.32.37.168 E010.36.38.149 colour_APP
                                         N049.32.37.168 E010.36.38.149 N049.32.02.731 E010.42.42.681 colour_APP

EDQD STAR ALL LONLIxZ                    N050.04.29.060 E011.13.34.989 N049.53.50.819 E011.24.28.540


[ARTCC HIGH]
EDJA_ILR_APP                             N048.10.28.000 E009.34.15.000 N048.18.09.000 E009.55.25.000
                                         N048.10.28.000 E009.34.15.000 N048.10.00.000 E009.33.00.000
                                         N047.58.59.000 E010.50.38.000 N048.14.12.000 E010.25.42.000
                                         N048.14.12.000 E010.25.42.000 N048.18.09.000 E009.55.25.000
                                         N047.58.59.000 E010.50.38.000 N047.52.03.000 E010.28.00.000
                                         N047.52.03.000 E010.28.00.000 N047.50.30.000 E010.23.00.000
                                         N047.50.30.000 E010.23.00.000 N047.49.05.000 E009.58.21.000
                                         N047.53.53.000 E009.50.08.000 N047.48.55.000 E009.54.18.000
                                         N047.48.55.000 E009.54.18.000 N047.49.05.000 E009.58.21.000
                                         N047.53.53.000 E009.50.08.000 N047.53.24.000 E009.33.00.000
                                         N047.53.24.000 E009.33.00.000 N047.58.24.000 E009.33.00.000
                                         N047.58.24.000 E009.33.00.000 N048.10.00.000 E009.33.00.000

Release line EDMM ARBAX Window           N049.26.33.000 E012.52.22.000 N049.35.18.000 E013.00.24.000 colour_Releaseline
                                         N049.35.18.000 E013.00.24.000 N049.27.45.000 E013.17.13.000 colour_Releaseline
                                         N049.27.45.000 E013.17.13.000 N049.12.42.000 E013.13.14.000 colour_Releaseline
[ARTCC]
EDMM_ALB_CTR                             N049.08.17.000 E011.07.57.000 N049.10.00.000 E011.58.00.000
                                         N048.40.03.000 E011.47.39.000 N049.10.00.000 E011.58.00.000
                                         N048.40.03.000 E011.47.39.000 N048.40.04.000 E011.30.42.000
                                         N048.40.04.000 E011.30.42.000 N048.40.04.000 E011.19.15.000
                                         N048.40.04.000 E011.19.15.000 N049.07.10.000 E010.40.25.000
                                         N049.07.10.000 E010.40.25.000 N049.08.17.000 E011.07.57.000
                                         N049.07.10.000 E010.40.25.000 N049.10.43.000 E010.35.16.000
                                         N049.26.04.000 E011.49.08.000 N049.26.30.000 E010.58.00.000
                                         N049.10.43.000 E010.35.16.000 N049.26.30.000 E010.58.00.000
                                         N049.26.30.000 E010.58.00.000 N049.39.17.000 E010.45.56.000
                                         N049.10.43.000 E010.35.16.000 N049.17.00.000 E010.27.30.000
                                         N049.17.00.000 E010.27.30.000 N049.23.54.000 E010.21.22.000
                                         N049.23.54.000 E010.21.22.000 N049.30.40.000 E010.30.12.000
                                         N049.30.40.000 E010.30.12.000 N049.39.17.000 E010.45.56.000
                                         N049.10.00.000 E011.58.00.000 N049.26.04.000 E011.49.08.000

EDMM_WLD_CTR                             N048.40.00.000 E010.58.00.000 N048.40.10.000 E011.11.00.000
                                         N048.40.10.000 E011.11.00.000 N048.40.04.000 E011.19.15.000
                                         N049.01.02.000 E010.15.27.000 N049.06.40.000 E010.28.45.000
                                         N049.06.40.000 E010.28.45.000 N049.10.43.000 E010.35.16.000
                                         N048.40.04.000 E011.19.15.000 N049.07.10.000 E010.40.25.000
                                         N049.07.10.000 E010.40.25.000 N049.10.43.000 E010.35.16.000
                                         N048.37.28.000 E010.54.16.000 N049.01.02.000 E010.15.27.000
                                         N048.37.28.000 E010.54.16.000 N048.40.00.000 E010.58.00.000


[ARTCC LOW]
RMZ EDMS                                 N048.57.40.000 E012.23.34.000 N048.56.22.000 E012.39.38.000 colour_RMZ
                                         N048.56.22.000 E012.39.38.000 N048.50.25.000 E012.38.30.000 colour_RMZ
                                         N048.50.25.000 E012.38.30.000 N048.51.43.000 E012.22.28.000 colour_RMZ
                                         N048.51.43.000 E012.22.28.000 N048.57.40.000 E012.23.34.000 colour_RMZ

RMZ EDNX                                 N048.16.27.000 E011.27.21.000 N048.17.12.000 E011.32.05.000 colour_RMZ
                                         N048.17.12.000 E011.32.05.000 N048.16.25.000 E011.32.09.000 colour_RMZ
                                         N048.16.25.000 E011.32.09.000 N048.16.54.000 E011.38.27.000 colour_RMZ
                                         N048.16.54.000 E011.38.27.000 N048.15.17.000 E011.40.25.000 colour_RMZ
                                         N048.15.17.000 E011.40.25.000 N048.14.28.000 E011.40.40.000 colour_RMZ
                                         N048.14.28.000 E011.40.40.000 N048.12.14.000 E011.39.45.000 colour_RMZ
                                         N048.12.14.000 E011.39.45.000 N048.10.38.000 E011.29.22.000 colour_RMZ
                                         N048.10.38.000 E011.29.22.000 N048.16.27.000 E011.27.21.000 colour_RMZ


[GEO]
EDDN Groundlayout Holding Points         N049.29.58.736 E011.03.33.028 N049.29.58.942 E011.03.34.353 colour_Stopbar
                                         N049.29.56.786 E011.03.52.659 N049.29.57.006 E011.03.54.022 colour_Stopbar

EDQC Groundlayout                        N050.15.52.011 E010.59.29.553 N050.15.52.239 E010.59.29.566

EDQC Groundlayout                        N050.15.52.011 E010.59.29.553 N050.15.52.239 E010.59.29.566 colour_Stopbar
                                         N050.15.39.345 E011.00.04.860 N050.15.39.411 E011.00.05.139 colour_Stopbar
                                         N050.15.39.345 E011.00.04.860 N050.15.39.411 E011.00.05.139
                                         RAVSA RAVSA LCE13 LCE13 geoDefault
HIGHWAYS LOVV                            N048.12.09.100 E016.13.16.700 N048.11.27.100 E016.12.10.100 COLOR_Landmark2
                                         N050.15.39.345 E011.00.04.860 N050.15.39.411 E011.00.05.139 colour_Stopbar
[REGIONS]
REGIONNAME EDDM Groundlayout
colour_Stopbar              N048.21.53.621 E011.48.32.152
                           N048.21.54.514 E011.48.32.715
                           N048.21.54.527 E011.48.32.571
                           N048.21.53.676 E011.48.32.042
REGIONNAME EDMO Groundlayout
colour_HardSurface1         N048.04.25.470 E011.16.20.093
                           N048.04.24.509 E011.16.21.717
                           N048.05.20.677 E011.17.38.446
                           N048.05.21.638 E011.17.36.829
Surrounding Grass	grass	N51.11.37.165 E02.51.07.153
 N51.11.38.619 E02.51.08.463
 N51.11.39.660 E02.51.10.008

[HIGH AIRWAY]
B73        N054.54.46.000 E018.57.29.998 N055.36.12.999 E019.50.17.901
B74        N055.12.05.000 E019.38.03.001 N055.36.12.999 E019.50.17.901
B74        N054.38.16.000 E019.21.20.001 N055.12.05.000 E019.38.03.001
B75        ARMUT ARMUT VEMUT VEMUT
B76        ARMUT ARMUT RTT RTT

[LOW AIRWAY]
A361       N048.56.21.001 E000.57.11.001 N048.47.26.199 E000.31.49.000
A361       N049.01.42.700 E001.12.50.601 N048.56.21.001 E000.57.11.001
A4         N048.37.03.248 E017.32.28.201 N048.42.56.998 E017.23.09.999
A4         N048.17.25.569 E018.03.02.300 N048.37.03.248 E017.32.28.201
A4         N048.42.56.998 E017.23.09.999 N048.51.11.520 E017.10.04.238
A5         RTT RTT NUB NUB
        ";
    let sct = Sct::parse(sct_bytes).unwrap();

    let sct_generated = sct.to_euroscope();
    let expected_generated = "[INFO]
AeroNav München 2401/1-1 EDMM 20240125
AERO_NAV
ZZZZ
N048.21.13.618
E011.47.09.909
60
39
-3
1

#define colour_APP\t16711680
#define colour_AirspaceA\t8421376
#define prohibitcolour\t7697781

[VOR]
NUB  115.750 N049.30.10.508 E011.02.06.000
OTT  112.300 N048.10.49.418 E011.48.59.529

[NDB]
MIQ  426.000 N048.34.12.810 E011.35.51.010
RTT  303.000 N047.25.51.319 E011.56.24.190

[FIXES]
(FM-C) N049.31.05.999 E008.26.42.000
ARMUT N049.43.20.999 E012.19.23.998
GEDSO N047.04.50.001 E011.52.13.000
INBED N049.23.15.000 E010.56.30.001
NAXAV N046.27.49.881 E011.19.19.858
UNKUL N049.08.13.999 E011.27.34.999
VEMUT N049.48.38.678 E012.27.40.489

[AIRPORT]
EDDM 000.000 N048.21.13.618 E011.47.09.909 D
EDNX 000.000 N048.14.20.399 E011.33.33.001 D
LIPB 000.000 N046.27.37.000 E011.19.35.000 D

[RUNWAY]
08R 26L 080 260 N048.20.26.408 E011.45.03.661 N048.20.41.269 E011.48.16.610 EDDM
08L 26R 080 260 N048.21.45.961 E011.46.03.179 N048.22.00.789 E011.49.16.219 EDDM
07  25  071 251 N048.14.17.710 E011.33.14.090 N048.14.24.388 E011.33.51.998 EDNX
04  22  037 217 N054.36.43.340 W005.52.47.140 N054.37.29.480 W005.51.51.950 EGAC

[SID]
EDDM SID 26L BIBAGxS                     N048.20.25.315 E011.44.49.465 N048.20.15.608 E011.42.33.951
                                         N048.20.15.608 E011.42.33.951 N048.17.15.248 E011.42.28.821
                                         N048.17.15.248 E011.42.28.821 N048.10.49.418 E011.48.59.529
                                         N048.10.49.418 E011.48.59.529 N048.13.54.868 E012.33.55.821
                                         N048.13.54.868 E012.33.55.821 N048.23.49.380 E012.44.59.211

EDDN SID 28 BOLSIxG                      N049.30.02.914 E011.03.23.507 N049.30.47.941 E010.55.42.060
                                         N049.30.47.941 E010.55.42.060 N049.27.44.369 E010.45.45.219
                                         N049.27.44.369 E010.45.45.219 N049.13.54.559 E010.45.30.628

[STAR]
EDDM TRAN RNP26R LANDU26                 N048.35.46.899 E012.16.26.140 N048.32.16.501 E011.30.05.529 colour_APP
                                         N048.32.16.501 E011.30.05.529 N048.25.44.061 E011.31.15.931 colour_APP
                                         N048.25.44.061 E011.31.15.931 N048.29.36.319 E012.22.42.409 colour_APP
                                         N048.29.36.319 E012.22.42.409 N048.30.47.361 E012.37.38.952 colour_APP

EDDN TRAN ILS10 DN430                    N049.33.11.289 E010.30.33.379 N049.32.37.168 E010.36.38.149 colour_APP
                                         N049.32.37.168 E010.36.38.149 N049.32.02.731 E010.42.42.681 colour_APP

EDQD STAR ALL LONLIxZ                    N050.04.29.060 E011.13.34.989 N049.53.50.819 E011.24.28.540

[ARTCC HIGH]
EDJA_ILR_APP                             N048.10.28.000 E009.34.15.000 N048.18.09.000 E009.55.25.000
                                         N048.10.28.000 E009.34.15.000 N048.10.00.000 E009.33.00.000
                                         N047.58.59.000 E010.50.38.000 N048.14.12.000 E010.25.42.000
                                         N048.14.12.000 E010.25.42.000 N048.18.09.000 E009.55.25.000
                                         N047.58.59.000 E010.50.38.000 N047.52.03.000 E010.28.00.000
                                         N047.52.03.000 E010.28.00.000 N047.50.30.000 E010.23.00.000
                                         N047.50.30.000 E010.23.00.000 N047.49.05.000 E009.58.21.000
                                         N047.53.53.000 E009.50.08.000 N047.48.55.000 E009.54.18.000
                                         N047.48.55.000 E009.54.18.000 N047.49.05.000 E009.58.21.000
                                         N047.53.53.000 E009.50.08.000 N047.53.24.000 E009.33.00.000
                                         N047.53.24.000 E009.33.00.000 N047.58.24.000 E009.33.00.000
                                         N047.58.24.000 E009.33.00.000 N048.10.00.000 E009.33.00.000

Release line EDMM ARBAX Window           N049.26.33.000 E012.52.22.000 N049.35.18.000 E013.00.24.000 colour_Releaseline
                                         N049.35.18.000 E013.00.24.000 N049.27.45.000 E013.17.13.000 colour_Releaseline
                                         N049.27.45.000 E013.17.13.000 N049.12.42.000 E013.13.14.000 colour_Releaseline

[ARTCC]
EDMM_ALB_CTR                             N049.08.17.000 E011.07.57.000 N049.10.00.000 E011.58.00.000
                                         N048.40.03.000 E011.47.39.000 N049.10.00.000 E011.58.00.000
                                         N048.40.03.000 E011.47.39.000 N048.40.04.000 E011.30.42.000
                                         N048.40.04.000 E011.30.42.000 N048.40.04.000 E011.19.15.000
                                         N048.40.04.000 E011.19.15.000 N049.07.10.000 E010.40.25.000
                                         N049.07.10.000 E010.40.25.000 N049.08.17.000 E011.07.57.000
                                         N049.07.10.000 E010.40.25.000 N049.10.43.000 E010.35.16.000
                                         N049.26.04.000 E011.49.08.000 N049.26.30.000 E010.58.00.000
                                         N049.10.43.000 E010.35.16.000 N049.26.30.000 E010.58.00.000
                                         N049.26.30.000 E010.58.00.000 N049.39.17.000 E010.45.56.000
                                         N049.10.43.000 E010.35.16.000 N049.17.00.000 E010.27.30.000
                                         N049.17.00.000 E010.27.30.000 N049.23.54.000 E010.21.22.000
                                         N049.23.54.000 E010.21.22.000 N049.30.40.000 E010.30.12.000
                                         N049.30.40.000 E010.30.12.000 N049.39.17.000 E010.45.56.000
                                         N049.10.00.000 E011.58.00.000 N049.26.04.000 E011.49.08.000

EDMM_WLD_CTR                             N048.40.00.000 E010.58.00.000 N048.40.10.000 E011.11.00.000
                                         N048.40.10.000 E011.11.00.000 N048.40.04.000 E011.19.15.000
                                         N049.01.02.000 E010.15.27.000 N049.06.40.000 E010.28.45.000
                                         N049.06.40.000 E010.28.45.000 N049.10.43.000 E010.35.16.000
                                         N048.40.04.000 E011.19.15.000 N049.07.10.000 E010.40.25.000
                                         N049.07.10.000 E010.40.25.000 N049.10.43.000 E010.35.16.000
                                         N048.37.28.000 E010.54.16.000 N049.01.02.000 E010.15.27.000
                                         N048.37.28.000 E010.54.16.000 N048.40.00.000 E010.58.00.000

[ARTCC LOW]
RMZ EDMS                                 N048.57.40.000 E012.23.34.000 N048.56.22.000 E012.39.38.000 colour_RMZ
                                         N048.56.22.000 E012.39.38.000 N048.50.25.000 E012.38.30.000 colour_RMZ
                                         N048.50.25.000 E012.38.30.000 N048.51.43.000 E012.22.28.000 colour_RMZ
                                         N048.51.43.000 E012.22.28.000 N048.57.40.000 E012.23.34.000 colour_RMZ

RMZ EDNX                                 N048.16.27.000 E011.27.21.000 N048.17.12.000 E011.32.05.000 colour_RMZ
                                         N048.17.12.000 E011.32.05.000 N048.16.25.000 E011.32.09.000 colour_RMZ
                                         N048.16.25.000 E011.32.09.000 N048.16.54.000 E011.38.27.000 colour_RMZ
                                         N048.16.54.000 E011.38.27.000 N048.15.17.000 E011.40.25.000 colour_RMZ
                                         N048.15.17.000 E011.40.25.000 N048.14.28.000 E011.40.40.000 colour_RMZ
                                         N048.14.28.000 E011.40.40.000 N048.12.14.000 E011.39.45.000 colour_RMZ
                                         N048.12.14.000 E011.39.45.000 N048.10.38.000 E011.29.22.000 colour_RMZ
                                         N048.10.38.000 E011.29.22.000 N048.16.27.000 E011.27.21.000 colour_RMZ

[GEO]
EDDN Groundlayout Holding Points         N049.29.58.736 E011.03.33.028 N049.29.58.942 E011.03.34.353 colour_Stopbar
                                         N049.29.56.786 E011.03.52.659 N049.29.57.006 E011.03.54.022 colour_Stopbar

EDQC Groundlayout                        N050.15.52.011 E010.59.29.553 N050.15.52.239 E010.59.29.566

EDQC Groundlayout                        N050.15.52.011 E010.59.29.553 N050.15.52.239 E010.59.29.566 colour_Stopbar
                                         N050.15.39.345 E011.00.04.860 N050.15.39.411 E011.00.05.139 colour_Stopbar
                                         N050.15.39.345 E011.00.04.860 N050.15.39.411 E011.00.05.139
                                         RAVSA RAVSA LCE13 LCE13 geoDefault

HIGHWAYS LOVV                            N048.12.09.100 E016.13.16.700 N048.11.27.100 E016.12.10.100 COLOR_Landmark2
                                         N050.15.39.345 E011.00.04.860 N050.15.39.411 E011.00.05.139 colour_Stopbar

[REGIONS]
REGIONNAME EDDM Groundlayout
colour_Stopbar             N048.21.53.621 E011.48.32.152
                           N048.21.54.514 E011.48.32.715
                           N048.21.54.527 E011.48.32.571
                           N048.21.53.676 E011.48.32.042
REGIONNAME EDMO Groundlayout
colour_HardSurface1        N048.04.25.470 E011.16.20.093
                           N048.04.24.509 E011.16.21.717
                           N048.05.20.677 E011.17.38.446
                           N048.05.21.638 E011.17.36.829
REGIONNAME Surrounding Grass
grass                      N051.11.37.165 E002.51.07.153
                           N051.11.38.619 E002.51.08.463
                           N051.11.39.660 E002.51.10.008

[HIGH AIRWAY]
B73        N054.54.46.000 E018.57.29.998 N055.36.12.999 E019.50.17.901
B74        N055.12.05.000 E019.38.03.001 N055.36.12.999 E019.50.17.901
B74        N054.38.16.000 E019.21.20.001 N055.12.05.000 E019.38.03.001
B75        ARMUT ARMUT VEMUT VEMUT
B76        ARMUT ARMUT RTT RTT

[LOW AIRWAY]
A361       N048.56.21.001 E000.57.11.001 N048.47.26.199 E000.31.49.000
A361       N049.01.42.700 E001.12.50.601 N048.56.21.001 E000.57.11.001
A4         N048.37.03.248 E017.32.28.201 N048.42.56.998 E017.23.09.999
A4         N048.17.25.569 E018.03.02.300 N048.37.03.248 E017.32.28.201
A4         N048.42.56.998 E017.23.09.999 N048.51.11.520 E017.10.04.238
A5         RTT RTT NUB NUB
";
    assert_eq!(expected_generated, sct_generated);
}

#[test]
fn test_dms_roundtrip() {
    let lat = (Sign::Pos, 48, 40, 0);
    let lng = (Sign::Pos, 10, 58, 500);
    let coord = Coordinate::from_deg_min_sec(lat, lng);
    let expected = 48.666_666_666_666_666;
    let y = coord.lat as f64 / 3_600_000.0;
    assert!(
        (y - expected).abs() < 1e-12,
        "left: {:?} not equal right: {:?}",
        y,
        expected
    );
    let expected = 10.966_805_555_555_556;
    let x = coord.lng as f64 / 3_600_000.0;
    assert!(
        (x - expected).abs() < 1e-12,
        "left: {:?} not equal right: {:?}",
        x,
        expected
    );
    assert_eq!(format_coordinate(coord), "N048.40.00.000 E010.58.00.500");
}

#[test]
fn test_negative_zero_degree() {
    let lat = (0, 30, 0); // S00 30' 00"
    let lng = (Sign::Neg, 0, 0, 0);

    let coord = Coordinate::from_deg_min_sec((Sign::Neg, lat.0, lat.1, lat.2), lng);

    assert!(coord.lat < 0);
}

#[test]
fn test_south_zero_degree() {
    let coord = Coordinate {
        lng: 0,
        lat: -1_800_000,
    };
    assert_eq!(format_dms(coord.lat, true), "S000.30.00.000");
}

#[test]
fn coordinates_write_west_and_cap_degrees() {
    assert_eq!(format_dms(-(5 * 3_600_000 + 52 * 60_000 + 47_140), false), "W005.52.47.140");
    assert_eq!(format_dms(999 * 3_600_000, true), "N255.00.00.000");
    assert_eq!(format_dms(0, false), "E000.00.00.000");
}

#[test]
fn sections_sort_by_name_keeping_equal_ones_in_order() {
    let text = b"[INFO]\nX\nCS\nAPT\nN048.00.00.000\nE011.00.00.000\n60.5\n39.25\n-0.125\n1\n\n[FIXES]\nZULU N001.00.00.000 E001.00.00.000\nALFA N002.00.00.000 E002.00.00.000\n\n[HIGH AIRWAY]\nB2 AAA AAA CCC CCC\nA1 XXX XXX YYY YYY\nB2 DDD DDD EEE EEE\n";
    let out = Sct::parse(text).unwrap().to_euroscope();
    assert!(out.starts_with(
        "[INFO]\nX\nCS\nAPT\nN048.00.00.000\nE011.00.00.000\n60.5\n39.25\n-0.125\n1\n\n\n\n[VOR]\n\n\n[NDB]"
    ));
    assert!(out.contains("[FIXES]\nALFA  N002.00.00.000 E002.00.00.000\nZULU  N001.00.00.000 E001.00.00.000\n\n"));
    assert!(out.contains(
        "[HIGH AIRWAY]\nA1         XXX XXX YYY YYY\nB2         AAA AAA CCC CCC\nB2         DDD DDD EEE EEE\n\n"
    ));
    assert!(out.ends_with("[LOW AIRWAY]\n\n"));
}
